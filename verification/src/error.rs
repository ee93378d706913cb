//! The ways an operation can be refused.

use vstd::prelude::*;
use vstd::std_specs::convert::FromSpecImpl;

verus! {

/// What the program itself objects to. The position of a kind in this list is
/// its code on the wire, so kinds are only ever added at the end.
#[derive(Debug, Copy, Clone, PartialEq, Eq, Structural)]
pub enum AiNftError {
    /// The instruction is not one the program knows.
    InvalidInstruction,
    /// A record's balance does not cover its storage.
    NotRentExempt,
    /// The record to set up has been set up before.
    AlreadyInitialized,
    /// The record to use has not been set up.
    NotInitialized,
    /// The attestation is not signed by the configured oracle.
    OracleSignatureVerificationFailed,
    /// The oracle data record belongs to somebody else.
    InvalidOracleAccountOwner,
    /// The attestation is too old to be of use.
    StaleOracleData,
    /// The attestation is not newer than the last one taken in.
    DataAlreadyProcessed,
    /// The configuration record belongs to somebody else.
    InvalidConfigAccountOwner,
    /// The token's state record belongs to somebody else.
    InvalidNftStateAccountOwner,
}

impl AiNftError {
    /// The code of a kind: its position in the list of kinds, from zero.
    pub open spec fn spec_code(self) -> u32 {
        match self {
            AiNftError::InvalidInstruction => 0,
            AiNftError::NotRentExempt => 1,
            AiNftError::AlreadyInitialized => 2,
            AiNftError::NotInitialized => 3,
            AiNftError::OracleSignatureVerificationFailed => 4,
            AiNftError::InvalidOracleAccountOwner => 5,
            AiNftError::StaleOracleData => 6,
            AiNftError::DataAlreadyProcessed => 7,
            AiNftError::InvalidConfigAccountOwner => 8,
            AiNftError::InvalidNftStateAccountOwner => 9,
        }
    }

    /// The text that describes a kind to a human reader.
    pub open spec fn spec_message(self) -> Seq<char> {
        match self {
            AiNftError::InvalidInstruction => "Invalid Instruction"@,
            AiNftError::NotRentExempt => "Not Rent Exempt"@,
            AiNftError::AlreadyInitialized => "Already Initialized"@,
            AiNftError::NotInitialized => "Account Not Initialized"@,
            AiNftError::OracleSignatureVerificationFailed => "Oracle signature verification failed"@,
            AiNftError::InvalidOracleAccountOwner => "Invalid Oracle account owner"@,
            AiNftError::StaleOracleData => "Stale Oracle Data"@,
            AiNftError::DataAlreadyProcessed => "Data already processed"@,
            AiNftError::InvalidConfigAccountOwner => "Invalid Config account owner"@,
            AiNftError::InvalidNftStateAccountOwner => "Invalid NFT state account owner"@,
        }
    }

    /// The number under which the runtime reports this kind.
    pub fn code(&self) -> (c: u32)
        ensures
            c == self.spec_code(),
    {
        match self {
            AiNftError::InvalidInstruction => 0,
            AiNftError::NotRentExempt => 1,
            AiNftError::AlreadyInitialized => 2,
            AiNftError::NotInitialized => 3,
            AiNftError::OracleSignatureVerificationFailed => 4,
            AiNftError::InvalidOracleAccountOwner => 5,
            AiNftError::StaleOracleData => 6,
            AiNftError::DataAlreadyProcessed => 7,
            AiNftError::InvalidConfigAccountOwner => 8,
            AiNftError::InvalidNftStateAccountOwner => 9,
        }
    }

    /// The description of this kind for a log line.
    pub fn message(&self) -> (m: &'static str)
        ensures
            m@ == self.spec_message(),
    {
        match self {
            AiNftError::InvalidInstruction => "Invalid Instruction",
            AiNftError::NotRentExempt => "Not Rent Exempt",
            AiNftError::AlreadyInitialized => "Already Initialized",
            AiNftError::NotInitialized => "Account Not Initialized",
            AiNftError::OracleSignatureVerificationFailed => "Oracle signature verification failed",
            AiNftError::InvalidOracleAccountOwner => "Invalid Oracle account owner",
            AiNftError::StaleOracleData => "Stale Oracle Data",
            AiNftError::DataAlreadyProcessed => "Data already processed",
            AiNftError::InvalidConfigAccountOwner => "Invalid Config account owner",
            AiNftError::InvalidNftStateAccountOwner => "Invalid NFT state account owner",
        }
    }
}

/// Why an operation ended without effect: the bytes handed in could not be
/// read, or the program objected.
#[derive(Debug, Copy, Clone, PartialEq, Eq, Structural)]
pub enum ProcessError {
    /// The instruction bytes are not the encoding of an instruction.
    InvalidInstructionData,
    /// A record's bytes have the wrong width or do not decode.
    InvalidAccountData,
    /// The operation reads more records than were handed in.
    NotEnoughAccountKeys,
    /// One of the program's own objections.
    Custom(AiNftError),
}

impl From<AiNftError> for ProcessError {
    fn from(e: AiNftError) -> (r: ProcessError) {
        ProcessError::Custom(e)
    }
}

impl FromSpecImpl<AiNftError> for ProcessError {
    open spec fn obeys_from_spec() -> bool {
        true
    }

    open spec fn from_spec(e: AiNftError) -> ProcessError {
        ProcessError::Custom(e)
    }
}

} // verus!
