//! The three operations of the program and their encoding.
//!
//! An instruction is one tag byte, followed by the operation's arguments. An
//! encoding is read whole: bytes behind the last argument make it invalid.

use crate::encoding::read_bytes;
use crate::error::ProcessError;
use vstd::prelude::*;

verus! {

/// What a caller can ask of the program. Each operation reads its records by
/// position from the list that comes with the instruction.
#[derive(Debug, Clone, Copy, PartialEq, Eq)]
pub enum AiNftInstruction {
    /// Sets up the configuration record, once.
    ///
    /// Records: 0 the authority that sets it up; 1 the configuration record,
    /// which is written; 2 the rent table; 3 the system program.
    InitializeConfig {
        /// The public key of the oracle to trust.
        oracle_pubkey: [u8; 32],
    },
    /// Sets up the state record of one token, once.
    ///
    /// Records: 0 the payer; 1 the state record, which is written; 2 the
    /// token's mint, whose address the state is bound to; 3 the rent table;
    /// 4 the system program.
    InitializeNftState,
    /// Takes the oracle's latest attestation into a token's state.
    ///
    /// Records: 0 whoever asks for the update; 1 the state record, which is
    /// written; 2 the oracle data record; 3 the configuration record.
    UpdateNftState,
}

/// An instruction, as plain values.
pub enum AiNftInstructionView {
    InitializeConfig { oracle_pubkey: Seq<u8> },
    InitializeNftState,
    UpdateNftState,
}

impl View for AiNftInstruction {
    type V = AiNftInstructionView;

    open spec fn view(&self) -> AiNftInstructionView {
        match *self {
            AiNftInstruction::InitializeConfig { oracle_pubkey } => AiNftInstructionView::InitializeConfig {
                oracle_pubkey: oracle_pubkey@,
            },
            AiNftInstruction::InitializeNftState => AiNftInstructionView::InitializeNftState,
            AiNftInstruction::UpdateNftState => AiNftInstructionView::UpdateNftState,
        }
    }
}

impl AiNftInstructionView {
    /// A key argument has the width of a key.
    pub open spec fn well_formed(self) -> bool {
        self matches AiNftInstructionView::InitializeConfig { oracle_pubkey } ==> oracle_pubkey.len()
            == 32
    }

    /// The encoding: tag 0 and the key, or tag 1, or tag 2.
    pub open spec fn packed(self) -> Seq<u8> {
        match self {
            AiNftInstructionView::InitializeConfig { oracle_pubkey } => seq![0u8] + oracle_pubkey,
            AiNftInstructionView::InitializeNftState => seq![1u8],
            AiNftInstructionView::UpdateNftState => seq![2u8],
        }
    }

    /// The instruction that `bytes` encode; none where the tag is unknown or
    /// the width is not the one that the tag asks for.
    pub open spec fn unpacked(bytes: Seq<u8>) -> Option<AiNftInstructionView> {
        if bytes.len() == 33 && bytes[0] == 0 {
            Some(AiNftInstructionView::InitializeConfig { oracle_pubkey: bytes.subrange(1, 33) })
        } else if bytes.len() == 1 && bytes[0] == 1 {
            Some(AiNftInstructionView::InitializeNftState)
        } else if bytes.len() == 1 && bytes[0] == 2 {
            Some(AiNftInstructionView::UpdateNftState)
        } else {
            None
        }
    }

    /// Decoding the encoding of an instruction gives the instruction back.
    pub proof fn lemma_round_trip(self)
        requires
            self.well_formed(),
        ensures
            Self::unpacked(self.packed()) == Some(self),
    {
        if let AiNftInstructionView::InitializeConfig { oracle_pubkey } = self {
            assert(self.packed().subrange(1, 33) =~= oracle_pubkey);
        }
    }

    /// Only the encoding of an instruction decodes to it.
    pub proof fn lemma_bytes_round_trip(bytes: Seq<u8>)
        requires
            Self::unpacked(bytes) is Some,
        ensures
            Self::unpacked(bytes)->Some_0.well_formed(),
            Self::unpacked(bytes)->Some_0.packed() == bytes,
    {
        assert(Self::unpacked(bytes)->Some_0.packed() =~= bytes);
    }
}

impl AiNftInstruction {
    /// Decodes an instruction from all of `data`.
    pub fn try_from_slice(data: &[u8]) -> (r: Result<AiNftInstruction, ProcessError>)
        ensures
            match AiNftInstructionView::unpacked(data@) {
                Some(v) => r matches Ok(i) && i@ == v,
                None => r matches Err(e) && e == ProcessError::InvalidInstructionData,
            },
    {
        if data.len() == 33 && data[0] == 0 {
            Ok(AiNftInstruction::InitializeConfig { oracle_pubkey: read_bytes::<32>(data, 1) })
        } else if data.len() == 1 && data[0] == 1 {
            Ok(AiNftInstruction::InitializeNftState)
        } else if data.len() == 1 && data[0] == 2 {
            Ok(AiNftInstruction::UpdateNftState)
        } else {
            Err(ProcessError::InvalidInstructionData)
        }
    }

    /// Encodes the instruction.
    pub fn pack(&self) -> (bytes: Vec<u8>)
        ensures
            bytes@ == self@.packed(),
    {
        let mut bytes: Vec<u8> = Vec::new();
        match self {
            AiNftInstruction::InitializeConfig { oracle_pubkey } => {
                bytes.push(0);
                bytes.extend_from_slice(oracle_pubkey.as_slice());
            },
            AiNftInstruction::InitializeNftState => {
                bytes.push(1);
            },
            AiNftInstruction::UpdateNftState => {
                bytes.push(2);
            },
        }
        assert(bytes@ =~= self@.packed());
        bytes
    }
}

} // verus!
