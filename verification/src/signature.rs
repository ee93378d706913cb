//! Who signed an attestation: the message that the oracle signs, and the
//! check of its signature against the configured key.

use crate::encoding::{
    i64_to_le, lemma_i64_le_bytes_round_trip, lemma_i64_le_round_trip,
    lemma_u64_le_bytes_round_trip, lemma_u64_le_round_trip, u64_to_le, write_i64_le, write_u64_le,
};
use crate::error::AiNftError;
use crate::state::{OracleDataAccount, OracleDataAccountView};
use ed25519_dalek::{Signature, VerifyingKey};
use vstd::prelude::*;

verus! {

/// Whether 32 bytes are the encoding of an Ed25519 public key, as
/// `ed25519_dalek::VerifyingKey::from_bytes` decides it.
pub uninterp spec fn ed25519_key_decodes(key: Seq<u8>) -> bool;

/// Whether `ed25519_dalek::VerifyingKey::verify_strict`, on the key that
/// `key` encodes, accepts `signature` for `message`.
pub uninterp spec fn ed25519_strict_valid(key: Seq<u8>, message: Seq<u8>, signature: Seq<u8>) -> bool;

/// What the strict check of a signature comes to: nothing where the key does
/// not decode, else whether the signature was accepted.
pub open spec fn strict_check(key: Seq<u8>, message: Seq<u8>, signature: Seq<u8>) -> Option<bool> {
    if ed25519_key_decodes(key) {
        Some(ed25519_strict_valid(key, message, signature))
    } else {
        None
    }
}

/// Calls `ed25519_dalek::VerifyingKey::from_bytes` on `key` and, where that
/// yields a key, `ed25519_dalek::VerifyingKey::verify_strict` on `message`
/// and `signature`; the strict check also refuses weak keys and signatures
/// that have a second encoding.
///
/// Taken on trust: that the outcome depends on the three byte strings alone.
/// Which keys decode and which signatures pass is left to the two names
/// above; nothing more is assumed of either.
#[verifier::external_body]
fn ed25519_verify_strict(key: &[u8; 32], message: &[u8], signature: &[u8; 64]) -> (check: Option<
    bool,
>)
    ensures
        check == if ed25519_key_decodes(key@) {
            Some(ed25519_strict_valid(key@, message@, signature@))
        } else {
            None
        },
{
    match VerifyingKey::from_bytes(key) {
        Ok(decoded) => Some(
            decoded.verify_strict(message, &Signature::from_bytes(signature)).is_ok(),
        ),
        Err(_) => None,
    }
}

/// The 16 bytes that the oracle signs: the score, then the timestamp, each in
/// eight little-endian bytes, with nothing before, between or behind them.
pub open spec fn spec_signed_message(sentiment_score: u64, timestamp: i64) -> Seq<u8> {
    u64_to_le(sentiment_score) + i64_to_le(timestamp)
}

/// The verdict on a signature check: only an accepted signature passes. A key
/// that does not decode and a signature that is refused are told to the
/// caller as the same failure.
pub open spec fn spec_signature_verdict(check: Option<bool>) -> Result<(), AiNftError> {
    if check == Some(true) {
        Ok(())
    } else {
        Err(AiNftError::OracleSignatureVerificationFailed)
    }
}

/// The verdict on an attestation's signature under the key that
/// `oracle_pubkey` encodes.
pub open spec fn spec_verify_oracle_signature(
    attestation: OracleDataAccountView,
    oracle_pubkey: Seq<u8>,
) -> Result<(), AiNftError> {
    spec_signature_verdict(
        strict_check(
            oracle_pubkey,
            spec_signed_message(attestation.sentiment_score, attestation.timestamp),
            attestation.signature,
        ),
    )
}

/// The message that the oracle signs for a score and a timestamp.
pub fn signed_message(sentiment_score: u64, timestamp: i64) -> (message: [u8; 16])
    ensures
        message@ == spec_signed_message(sentiment_score, timestamp),
{
    let mut message: [u8; 16] = [0u8; 16];
    write_u64_le(&mut message, 0, sentiment_score);
    write_i64_le(&mut message, 8, timestamp);
    assert(message@ =~= spec_signed_message(sentiment_score, timestamp));
    message
}

/// Turns the outcome of a signature check into a verdict.
pub fn signature_verdict(check: Option<bool>) -> (verdict: Result<(), AiNftError>)
    ensures
        verdict == spec_signature_verdict(check),
{
    match check {
        Some(true) => Ok(()),
        _ => Err(AiNftError::OracleSignatureVerificationFailed),
    }
}

/// Checks that the attestation is signed by the oracle whose key is
/// `oracle_pubkey`: the signature must be a strict Ed25519 signature of the
/// attestation's signed message under that key.
pub fn verify_oracle_signature(attestation: &OracleDataAccount, oracle_pubkey: &[u8; 32]) -> (verdict:
    Result<(), AiNftError>)
    ensures
        verdict == spec_verify_oracle_signature(attestation@, oracle_pubkey@),
{
    let message: [u8; 16] = signed_message(attestation.sentiment_score, attestation.timestamp);
    signature_verdict(ed25519_verify_strict(oracle_pubkey, message.as_slice(), &attestation.signature))
}

/// Two attestations with the same signed message attest the same score at the
/// same time: a change to either changes the message.
pub proof fn lemma_signed_message_determines_content(
    score_a: u64,
    timestamp_a: i64,
    score_b: u64,
    timestamp_b: i64,
)
    requires
        spec_signed_message(score_a, timestamp_a) == spec_signed_message(score_b, timestamp_b),
    ensures
        score_a == score_b,
        timestamp_a == timestamp_b,
{
    lemma_u64_le_round_trip(score_a);
    lemma_u64_le_round_trip(score_b);
    lemma_i64_le_round_trip(timestamp_a);
    lemma_i64_le_round_trip(timestamp_b);
    let message = spec_signed_message(score_a, timestamp_a);
    assert(message.subrange(0, 8) =~= u64_to_le(score_a));
    assert(message.subrange(0, 8) =~= u64_to_le(score_b));
    assert(message.subrange(8, 16) =~= i64_to_le(timestamp_a));
    assert(message.subrange(8, 16) =~= i64_to_le(timestamp_b));
}

/// What is checked is what was posted: the signed message of a decoded
/// attestation is the first 16 bytes of its record, and its signature is the
/// 64 bytes behind them. A change to any bit of the record therefore changes
/// the message or the signature that goes into the check.
pub proof fn lemma_record_bytes_are_what_is_checked(oracle_data: Seq<u8>)
    requires
        OracleDataAccountView::unpacked_exact(oracle_data) is Some,
    ensures
        ({
            let attestation = OracleDataAccountView::unpacked_exact(oracle_data)->Some_0;
            &&& spec_signed_message(attestation.sentiment_score, attestation.timestamp)
                == oracle_data.subrange(0, 16)
            &&& attestation.signature == oracle_data.subrange(16, 80)
            &&& oracle_data == spec_signed_message(
                attestation.sentiment_score,
                attestation.timestamp,
            ) + attestation.signature
        }),
{
    let attestation = OracleDataAccountView::unpacked_exact(oracle_data)->Some_0;
    lemma_u64_le_bytes_round_trip(oracle_data.subrange(0, 8));
    lemma_i64_le_bytes_round_trip(oracle_data.subrange(8, 16));
    assert(spec_signed_message(attestation.sentiment_score, attestation.timestamp)
        =~= oracle_data.subrange(0, 16));
    assert(oracle_data =~= oracle_data.subrange(0, 16) + oracle_data.subrange(16, 80));
}

} // verus!
