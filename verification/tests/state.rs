use ai_sentiment_nft::error::ProcessError;
use ai_sentiment_nft::state::{ConfigAccount, NftEvolutionAccount, OracleDataAccount};

fn key_of(first: u8) -> [u8; 32] {
    let mut key = [0u8; 32];
    for (i, b) in key.iter_mut().enumerate() {
        *b = first.wrapping_add(u8::try_from(i).unwrap());
    }
    key
}

fn signature_of(first: u8) -> [u8; 64] {
    let mut signature = [0u8; 64];
    for (i, b) in signature.iter_mut().enumerate() {
        *b = first.wrapping_add(u8::try_from(i).unwrap());
    }
    signature
}

#[test]
fn record_widths() {
    assert_eq!(ConfigAccount::LEN, 33);
    assert_eq!(NftEvolutionAccount::LEN, 57);
    assert_eq!(OracleDataAccount::LEN, 80);
}

#[test]
fn default_records_are_blank() {
    let config = ConfigAccount::default();
    assert!(!config.is_initialized());
    assert_eq!(config.oracle_pubkey, [0u8; 32]);
    let state = NftEvolutionAccount::default();
    assert!(!state.is_initialized());
    assert_eq!(state.nft_mint, [0u8; 32]);
    assert_eq!(state.last_processed_sentiment, 0);
    assert_eq!(state.last_processed_timestamp, 0);
    assert_eq!(state.evolution_points, 0);
    let attestation = OracleDataAccount::default();
    assert_eq!(attestation.sentiment_score, 0);
    assert_eq!(attestation.timestamp, 0);
    assert_eq!(attestation.signature, [0u8; 64]);
}

#[test]
fn config_layout_is_flag_then_key() {
    let config = ConfigAccount { is_initialized: true, oracle_pubkey: key_of(10) };
    let mut buf: Vec<u8> = vec![0xee; 33];
    assert_eq!(ConfigAccount::pack(config, &mut buf), Ok(()));
    assert_eq!(buf[0], 1);
    assert_eq!(&buf[1..33], &key_of(10)[..]);
    assert_eq!(ConfigAccount::unpack_unchecked(&buf), Ok(config));
}

#[test]
fn config_layout_agrees_with_borsh() {
    for flag in [false, true] {
        let config = ConfigAccount { is_initialized: flag, oracle_pubkey: key_of(200) };
        let mut buf: Vec<u8> = vec![0; 33];
        config.pack_into_slice(&mut buf);
        assert_eq!(buf, borsh::to_vec(&(flag, key_of(200))).unwrap());
        let (f, k): (bool, [u8; 32]) = borsh::from_slice(&buf).unwrap();
        assert_eq!(ConfigAccount::unpack_from_slice(&buf), Ok(ConfigAccount { is_initialized: f, oracle_pubkey: k }));
    }
}

#[test]
fn config_of_wrong_width_is_refused() {
    let config = ConfigAccount { is_initialized: true, oracle_pubkey: key_of(1) };
    let mut short: Vec<u8> = vec![7; 32];
    assert_eq!(ConfigAccount::pack(config, &mut short), Err(ProcessError::InvalidAccountData));
    assert_eq!(short, vec![7; 32]);
    let mut long: Vec<u8> = vec![7; 34];
    assert_eq!(ConfigAccount::pack(config, &mut long), Err(ProcessError::InvalidAccountData));
    assert_eq!(long, vec![7; 34]);
    assert_eq!(ConfigAccount::unpack_unchecked(&[0u8; 32]), Err(ProcessError::InvalidAccountData));
    assert_eq!(ConfigAccount::unpack_unchecked(&[0u8; 34]), Err(ProcessError::InvalidAccountData));
    assert_eq!(ConfigAccount::unpack_unchecked(&[]), Err(ProcessError::InvalidAccountData));
    assert_eq!(ConfigAccount::unpack_from_slice(&[0u8; 32]), Err(ProcessError::InvalidAccountData));
}

#[test]
fn config_prefix_is_read_and_written_in_a_longer_buffer() {
    let config = ConfigAccount { is_initialized: true, oracle_pubkey: key_of(3) };
    let mut buf: Vec<u8> = vec![0xcc; 40];
    config.pack_into_slice(&mut buf);
    assert_eq!(&buf[33..], &[0xcc; 7][..]);
    assert_eq!(ConfigAccount::unpack_from_slice(&buf), Ok(config));
}

#[test]
fn flag_byte_must_be_zero_or_one() {
    let mut buf: Vec<u8> = vec![0; 33];
    buf[0] = 2;
    assert_eq!(ConfigAccount::unpack_unchecked(&buf), Err(ProcessError::InvalidAccountData));
    buf[0] = 255;
    assert_eq!(ConfigAccount::unpack_from_slice(&buf), Err(ProcessError::InvalidAccountData));
    let mut state: Vec<u8> = vec![0; 57];
    state[0] = 2;
    assert_eq!(NftEvolutionAccount::unpack_unchecked(&state), Err(ProcessError::InvalidAccountData));
    state[0] = 1;
    assert!(NftEvolutionAccount::unpack_unchecked(&state).unwrap().is_initialized());
    state[0] = 0;
    assert!(!NftEvolutionAccount::unpack_unchecked(&state).unwrap().is_initialized());
}

#[test]
fn state_layout_is_flag_mint_score_timestamp_points() {
    let state = NftEvolutionAccount {
        is_initialized: true,
        nft_mint: key_of(50),
        last_processed_sentiment: 0x0102_0304_0506_0708,
        last_processed_timestamp: -2,
        evolution_points: 258,
    };
    let mut buf: Vec<u8> = vec![0xee; 57];
    assert_eq!(NftEvolutionAccount::pack(state, &mut buf), Ok(()));
    assert_eq!(buf[0], 1);
    assert_eq!(&buf[1..33], &key_of(50)[..]);
    assert_eq!(&buf[33..41], &[8, 7, 6, 5, 4, 3, 2, 1][..]);
    assert_eq!(&buf[41..49], &[0xfe, 0xff, 0xff, 0xff, 0xff, 0xff, 0xff, 0xff][..]);
    assert_eq!(&buf[49..57], &[2, 1, 0, 0, 0, 0, 0, 0][..]);
    assert_eq!(NftEvolutionAccount::unpack_unchecked(&buf), Ok(state));
}

#[test]
fn state_layout_agrees_with_borsh() {
    let cases: [(bool, u64, i64, u64); 4] = [
        (false, 0, 0, 0),
        (true, 80, 100, 10),
        (true, u64::MAX, i64::MIN, u64::MAX),
        (true, 1 << 40, i64::MAX, 1 << 63),
    ];
    for (flag, score, timestamp, points) in cases {
        let state = NftEvolutionAccount {
            is_initialized: flag,
            nft_mint: key_of(77),
            last_processed_sentiment: score,
            last_processed_timestamp: timestamp,
            evolution_points: points,
        };
        let mut buf: Vec<u8> = vec![0; 57];
        state.pack_into_slice(&mut buf);
        assert_eq!(buf, borsh::to_vec(&(flag, key_of(77), score, timestamp, points)).unwrap());
        assert_eq!(NftEvolutionAccount::unpack_from_slice(&buf), Ok(state));
    }
}

#[test]
fn state_of_wrong_width_is_refused() {
    let state = NftEvolutionAccount::default();
    let mut short: Vec<u8> = vec![1; 56];
    assert_eq!(NftEvolutionAccount::pack(state, &mut short), Err(ProcessError::InvalidAccountData));
    assert_eq!(short, vec![1; 56]);
    assert_eq!(NftEvolutionAccount::unpack_unchecked(&[0u8; 56]), Err(ProcessError::InvalidAccountData));
    assert_eq!(NftEvolutionAccount::unpack_unchecked(&[0u8; 58]), Err(ProcessError::InvalidAccountData));
    assert_eq!(NftEvolutionAccount::unpack_from_slice(&[0u8; 56]), Err(ProcessError::InvalidAccountData));
    assert_eq!(NftEvolutionAccount::unpack_from_slice(&[0u8; 58]), Ok(state));
}

#[test]
fn attestation_layout_is_score_timestamp_signature() {
    let attestation =
        OracleDataAccount { sentiment_score: 80, timestamp: 100, signature: signature_of(5) };
    let mut buf: Vec<u8> = vec![0xee; 80];
    assert_eq!(OracleDataAccount::pack(attestation, &mut buf), Ok(()));
    assert_eq!(&buf[0..8], &[80, 0, 0, 0, 0, 0, 0, 0][..]);
    assert_eq!(&buf[8..16], &[100, 0, 0, 0, 0, 0, 0, 0][..]);
    assert_eq!(&buf[16..80], &signature_of(5)[..]);
    assert_eq!(OracleDataAccount::unpack_unchecked(&buf), Ok(attestation));
}

#[test]
fn attestation_layout_agrees_with_borsh() {
    let attestation = OracleDataAccount {
        sentiment_score: 0xdead_beef,
        timestamp: -1_700_000_000,
        signature: signature_of(9),
    };
    let mut buf: Vec<u8> = vec![0; 80];
    attestation.pack_into_slice(&mut buf);
    assert_eq!(
        buf,
        borsh::to_vec(&(0xdead_beefu64, -1_700_000_000i64, signature_of(9))).unwrap()
    );
}

#[test]
fn attestation_of_wrong_width_is_refused() {
    assert_eq!(OracleDataAccount::unpack_unchecked(&[0u8; 79]), Err(ProcessError::InvalidAccountData));
    assert_eq!(OracleDataAccount::unpack_unchecked(&[0u8; 81]), Err(ProcessError::InvalidAccountData));
    assert_eq!(OracleDataAccount::unpack_unchecked(&[]), Err(ProcessError::InvalidAccountData));
    assert_eq!(OracleDataAccount::unpack_from_slice(&[0u8; 79]), Err(ProcessError::InvalidAccountData));
    assert_eq!(OracleDataAccount::unpack_from_slice(&[0u8; 81]), Ok(OracleDataAccount::default()));
    let mut short: Vec<u8> = vec![3; 79];
    assert_eq!(
        OracleDataAccount::pack(OracleDataAccount::default(), &mut short),
        Err(ProcessError::InvalidAccountData)
    );
    assert_eq!(short, vec![3; 79]);
}
