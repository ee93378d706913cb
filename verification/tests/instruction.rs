use ai_sentiment_nft::error::ProcessError;
use ai_sentiment_nft::instruction::AiNftInstruction;

#[test]
fn instructions_encode_as_tag_and_arguments() {
    let key = [9u8; 32];
    let mut expected: Vec<u8> = vec![0];
    expected.extend_from_slice(&key);
    assert_eq!(AiNftInstruction::InitializeConfig { oracle_pubkey: key }.pack(), expected);
    assert_eq!(AiNftInstruction::InitializeNftState.pack(), vec![1]);
    assert_eq!(AiNftInstruction::UpdateNftState.pack(), vec![2]);
}

#[test]
fn instruction_encoding_agrees_with_borsh() {
    let key = [0x5au8; 32];
    assert_eq!(
        AiNftInstruction::InitializeConfig { oracle_pubkey: key }.pack(),
        borsh::to_vec(&(0u8, key)).unwrap()
    );
    assert_eq!(AiNftInstruction::InitializeNftState.pack(), borsh::to_vec(&1u8).unwrap());
    assert_eq!(AiNftInstruction::UpdateNftState.pack(), borsh::to_vec(&2u8).unwrap());
}

#[test]
fn instructions_decode_from_their_encoding() {
    let mut key = [0u8; 32];
    key[0] = 1;
    key[31] = 200;
    let all = [
        AiNftInstruction::InitializeConfig { oracle_pubkey: key },
        AiNftInstruction::InitializeNftState,
        AiNftInstruction::UpdateNftState,
    ];
    for instruction in all {
        assert_eq!(AiNftInstruction::try_from_slice(&instruction.pack()), Ok(instruction));
    }
}

#[test]
fn unknown_tags_and_wrong_widths_are_refused() {
    let bad = Err(ProcessError::InvalidInstructionData);
    assert_eq!(AiNftInstruction::try_from_slice(&[]), bad);
    assert_eq!(AiNftInstruction::try_from_slice(&[3]), bad);
    assert_eq!(AiNftInstruction::try_from_slice(&[255]), bad);
    assert_eq!(AiNftInstruction::try_from_slice(&[0]), bad);
    assert_eq!(AiNftInstruction::try_from_slice(&[0u8; 32]), bad);
    assert_eq!(AiNftInstruction::try_from_slice(&[0u8; 34]), bad);
    assert_eq!(AiNftInstruction::try_from_slice(&[1, 0]), bad);
    assert_eq!(AiNftInstruction::try_from_slice(&[2, 0]), bad);
    let mut tagged: Vec<u8> = vec![1];
    tagged.extend_from_slice(&[0u8; 32]);
    assert_eq!(AiNftInstruction::try_from_slice(&tagged), bad);
}
