use ai_sentiment_nft::error::{AiNftError, ProcessError};

fn all_kinds() -> Vec<AiNftError> {
    vec![
        AiNftError::InvalidInstruction,
        AiNftError::NotRentExempt,
        AiNftError::AlreadyInitialized,
        AiNftError::NotInitialized,
        AiNftError::OracleSignatureVerificationFailed,
        AiNftError::InvalidOracleAccountOwner,
        AiNftError::StaleOracleData,
        AiNftError::DataAlreadyProcessed,
        AiNftError::InvalidConfigAccountOwner,
        AiNftError::InvalidNftStateAccountOwner,
    ]
}

#[test]
fn codes_count_the_kinds_from_zero() {
    let kinds = all_kinds();
    for (i, kind) in kinds.iter().enumerate() {
        assert_eq!(u32::try_from(i).unwrap(), kind.code());
    }
    assert_eq!(AiNftError::AlreadyInitialized.code(), 2);
    assert_eq!(AiNftError::OracleSignatureVerificationFailed.code(), 4);
    assert_eq!(AiNftError::DataAlreadyProcessed.code(), 7);
}

#[test]
fn messages_describe_the_kinds() {
    assert_eq!(AiNftError::InvalidInstruction.message(), "Invalid Instruction");
    assert_eq!(AiNftError::NotRentExempt.message(), "Not Rent Exempt");
    assert_eq!(AiNftError::AlreadyInitialized.message(), "Already Initialized");
    assert_eq!(AiNftError::NotInitialized.message(), "Account Not Initialized");
    assert_eq!(
        AiNftError::OracleSignatureVerificationFailed.message(),
        "Oracle signature verification failed"
    );
    assert_eq!(AiNftError::InvalidOracleAccountOwner.message(), "Invalid Oracle account owner");
    assert_eq!(AiNftError::StaleOracleData.message(), "Stale Oracle Data");
    assert_eq!(AiNftError::DataAlreadyProcessed.message(), "Data already processed");
    assert_eq!(AiNftError::InvalidConfigAccountOwner.message(), "Invalid Config account owner");
    assert_eq!(
        AiNftError::InvalidNftStateAccountOwner.message(),
        "Invalid NFT state account owner"
    );
}

#[test]
fn a_program_error_converts_to_a_custom_process_error() {
    for kind in all_kinds() {
        assert_eq!(ProcessError::from(kind), ProcessError::Custom(kind));
        let converted: ProcessError = kind.into();
        assert_eq!(converted, ProcessError::Custom(kind));
    }
    assert_ne!(
        ProcessError::from(AiNftError::NotInitialized),
        ProcessError::Custom(AiNftError::AlreadyInitialized)
    );
}
