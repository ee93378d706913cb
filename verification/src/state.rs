//! The three records of the program and their byte layouts.
//!
//! Every layout is fixed-width and little-endian with no padding: a flag is
//! one byte (0 or 1), a key is its 32 bytes, a number is eight bytes.

use crate::encoding::{
    i64_from_le, i64_to_le, lemma_i64_le_bytes_round_trip, lemma_i64_le_round_trip,
    lemma_u64_le_bytes_round_trip, lemma_u64_le_round_trip, read_bytes, read_i64_le, read_u64_le,
    u64_from_le, u64_to_le, write_bytes, write_i64_le, write_u64_le,
};
use crate::error::ProcessError;
use vstd::prelude::*;

verus! {

/// The byte that stores a flag.
pub open spec fn flag_byte(flag: bool) -> u8 {
    if flag {
        1
    } else {
        0
    }
}

/// The configuration record: the one key whose attestations are believed.
#[derive(Debug, Clone, Copy, PartialEq, Eq)]
pub struct ConfigAccount {
    /// Whether the record has been set up.
    pub is_initialized: bool,
    /// The public key of the trusted oracle.
    pub oracle_pubkey: [u8; 32],
}

/// What a configuration record holds, as plain values.
pub struct ConfigAccountView {
    pub is_initialized: bool,
    pub oracle_pubkey: Seq<u8>,
}

impl View for ConfigAccount {
    type V = ConfigAccountView;

    open spec fn view(&self) -> ConfigAccountView {
        ConfigAccountView { is_initialized: self.is_initialized, oracle_pubkey: self.oracle_pubkey@ }
    }
}

impl ConfigAccountView {
    /// The key has the width of a key.
    pub open spec fn well_formed(self) -> bool {
        self.oracle_pubkey.len() == 32
    }

    /// The record's 33 bytes: the flag, then the key.
    pub open spec fn packed(self) -> Seq<u8> {
        seq![flag_byte(self.is_initialized)] + self.oracle_pubkey
    }

    /// The record that the first 33 bytes stand for; none where there are
    /// fewer bytes or the flag byte is neither 0 nor 1.
    pub open spec fn unpacked(bytes: Seq<u8>) -> Option<ConfigAccountView> {
        if bytes.len() < 33 || bytes[0] > 1 {
            None
        } else {
            Some(
                ConfigAccountView {
                    is_initialized: bytes[0] == 1,
                    oracle_pubkey: bytes.subrange(1, 33),
                },
            )
        }
    }

    /// The record that `bytes` stand for when they are exactly as wide as
    /// one; none otherwise.
    pub open spec fn unpacked_exact(bytes: Seq<u8>) -> Option<ConfigAccountView> {
        if bytes.len() == 33 {
            Self::unpacked(bytes)
        } else {
            None
        }
    }

    /// Packing a record and unpacking the bytes gives the record back.
    pub proof fn lemma_round_trip(self)
        requires
            self.well_formed(),
        ensures
            self.packed().len() == 33,
            Self::unpacked(self.packed()) == Some(self),
    {
        assert(self.packed().subrange(1, 33) =~= self.oracle_pubkey);
    }

    /// Unpacking bytes and packing the record gives the first 33 bytes back.
    pub proof fn lemma_bytes_round_trip(bytes: Seq<u8>)
        requires
            Self::unpacked(bytes) is Some,
        ensures
            Self::unpacked(bytes)->Some_0.well_formed(),
            Self::unpacked(bytes)->Some_0.packed() == bytes.subrange(0, 33),
    {
        assert(Self::unpacked(bytes)->Some_0.packed() =~= bytes.subrange(0, 33));
    }
}

impl Default for ConfigAccount {
    /// The record before it is set up: every byte zero.
    fn default() -> (r: ConfigAccount)
        ensures
            !r.is_initialized,
            r.oracle_pubkey@ == Seq::new(32, |i: int| 0u8),
    {
        let r = ConfigAccount { is_initialized: false, oracle_pubkey: [0u8; 32] };
        assert(r.oracle_pubkey@ =~= Seq::new(32, |i: int| 0u8));
        r
    }
}

impl ConfigAccount {
    /// The width of the record in bytes.
    pub const LEN: usize = 33;

    /// Whether the record has been set up.
    pub fn is_initialized(&self) -> (b: bool)
        ensures
            b == self.is_initialized,
    {
        self.is_initialized
    }

    /// Writes the record over the first 33 bytes of `dst`; the bytes behind
    /// them keep their values.
    pub fn pack_into_slice(&self, dst: &mut [u8])
        requires
            old(dst)@.len() >= 33,
        ensures
            final(dst)@ == self@.packed() + old(dst)@.subrange(33, old(dst)@.len() as int),
    {
        dst[0] = if self.is_initialized {
            1
        } else {
            0
        };
        write_bytes(dst, 1, &self.oracle_pubkey);
        assert(dst@ =~= self@.packed() + old(dst)@.subrange(33, old(dst)@.len() as int));
    }

    /// Reads a record from the first 33 bytes of `src`.
    pub fn unpack_from_slice(src: &[u8]) -> (r: Result<ConfigAccount, ProcessError>)
        ensures
            match ConfigAccountView::unpacked(src@) {
                Some(v) => r matches Ok(c) && c@ == v,
                None => r matches Err(e) && e == ProcessError::InvalidAccountData,
            },
    {
        if src.len() < 33 || src[0] > 1 {
            return Err(ProcessError::InvalidAccountData);
        }
        Ok(ConfigAccount { is_initialized: src[0] == 1, oracle_pubkey: read_bytes::<32>(src, 1) })
    }

    /// Reads a record from bytes that must be exactly as wide as the record.
    pub fn unpack_unchecked(input: &[u8]) -> (r: Result<ConfigAccount, ProcessError>)
        ensures
            match ConfigAccountView::unpacked_exact(input@) {
                Some(v) => r matches Ok(c) && c@ == v,
                None => r matches Err(e) && e == ProcessError::InvalidAccountData,
            },
    {
        if input.len() != ConfigAccount::LEN {
            return Err(ProcessError::InvalidAccountData);
        }
        ConfigAccount::unpack_from_slice(input)
    }

    /// Writes the record into `dst`, which must be exactly as wide as the
    /// record; otherwise `dst` keeps its bytes.
    pub fn pack(src: ConfigAccount, dst: &mut [u8]) -> (r: Result<(), ProcessError>)
        ensures
            old(dst)@.len() == 33 ==> r is Ok && final(dst)@ == src@.packed(),
            old(dst)@.len() != 33 ==> r == Err::<(), ProcessError>(ProcessError::InvalidAccountData)
                && final(dst)@ == old(dst)@,
    {
        if dst.len() != ConfigAccount::LEN {
            return Err(ProcessError::InvalidAccountData);
        }
        src.pack_into_slice(dst);
        assert(dst@ =~= src@.packed());
        Ok(())
    }
}

/// An attestation as the oracle posts it: a sentiment score, the time it was
/// made, and the oracle's signature over both.
#[derive(Debug, Clone, Copy, PartialEq, Eq)]
pub struct OracleDataAccount {
    /// The sentiment score that the oracle attests.
    pub sentiment_score: u64,
    /// When the score was made.
    pub timestamp: i64,
    /// The oracle's signature over the score and the timestamp.
    pub signature: [u8; 64],
}

/// What an attestation holds, as plain values.
pub struct OracleDataAccountView {
    pub sentiment_score: u64,
    pub timestamp: i64,
    pub signature: Seq<u8>,
}

impl View for OracleDataAccount {
    type V = OracleDataAccountView;

    open spec fn view(&self) -> OracleDataAccountView {
        OracleDataAccountView {
            sentiment_score: self.sentiment_score,
            timestamp: self.timestamp,
            signature: self.signature@,
        }
    }
}

impl OracleDataAccountView {
    /// The signature has the width of a signature.
    pub open spec fn well_formed(self) -> bool {
        self.signature.len() == 64
    }

    /// The attestation's 80 bytes: the score, the timestamp, the signature.
    pub open spec fn packed(self) -> Seq<u8> {
        u64_to_le(self.sentiment_score) + i64_to_le(self.timestamp) + self.signature
    }

    /// The attestation that the first 80 bytes stand for; none where there
    /// are fewer bytes.
    pub open spec fn unpacked(bytes: Seq<u8>) -> Option<OracleDataAccountView> {
        if bytes.len() < 80 {
            None
        } else {
            Some(
                OracleDataAccountView {
                    sentiment_score: u64_from_le(bytes.subrange(0, 8)),
                    timestamp: i64_from_le(bytes.subrange(8, 16)),
                    signature: bytes.subrange(16, 80),
                },
            )
        }
    }

    /// The attestation that `bytes` stand for when they are exactly as wide as
    /// one; none otherwise.
    pub open spec fn unpacked_exact(bytes: Seq<u8>) -> Option<OracleDataAccountView> {
        if bytes.len() == 80 {
            Self::unpacked(bytes)
        } else {
            None
        }
    }

    /// Packing an attestation and unpacking the bytes gives it back.
    pub proof fn lemma_round_trip(self)
        requires
            self.well_formed(),
        ensures
            self.packed().len() == 80,
            Self::unpacked(self.packed()) == Some(self),
    {
        lemma_u64_le_round_trip(self.sentiment_score);
        lemma_i64_le_round_trip(self.timestamp);
        let bytes = self.packed();
        assert(bytes.subrange(0, 8) =~= u64_to_le(self.sentiment_score));
        assert(bytes.subrange(8, 16) =~= i64_to_le(self.timestamp));
        assert(bytes.subrange(16, 80) =~= self.signature);
    }

    /// Unpacking bytes and packing the attestation gives the first 80 bytes
    /// back.
    pub proof fn lemma_bytes_round_trip(bytes: Seq<u8>)
        requires
            Self::unpacked(bytes) is Some,
        ensures
            Self::unpacked(bytes)->Some_0.well_formed(),
            Self::unpacked(bytes)->Some_0.packed() == bytes.subrange(0, 80),
    {
        lemma_u64_le_bytes_round_trip(bytes.subrange(0, 8));
        lemma_i64_le_bytes_round_trip(bytes.subrange(8, 16));
        assert(Self::unpacked(bytes)->Some_0.packed() =~= bytes.subrange(0, 80));
    }
}

impl Default for OracleDataAccount {
    /// The attestation of which every byte is zero.
    fn default() -> (r: OracleDataAccount)
        ensures
            r.sentiment_score == 0,
            r.timestamp == 0,
            r.signature@ == Seq::new(64, |i: int| 0u8),
    {
        let r = OracleDataAccount { sentiment_score: 0, timestamp: 0, signature: [0u8; 64] };
        assert(r.signature@ =~= Seq::new(64, |i: int| 0u8));
        r
    }
}

impl OracleDataAccount {
    /// The width of the attestation in bytes.
    pub const LEN: usize = 80;

    /// Writes the attestation over the first 80 bytes of `dst`; the bytes
    /// behind them keep their values.
    pub fn pack_into_slice(&self, dst: &mut [u8])
        requires
            old(dst)@.len() >= 80,
        ensures
            final(dst)@ == self@.packed() + old(dst)@.subrange(80, old(dst)@.len() as int),
    {
        write_u64_le(dst, 0, self.sentiment_score);
        write_i64_le(dst, 8, self.timestamp);
        write_bytes(dst, 16, &self.signature);
        assert(dst@ =~= self@.packed() + old(dst)@.subrange(80, old(dst)@.len() as int));
    }

    /// Reads an attestation from the first 80 bytes of `src`.
    pub fn unpack_from_slice(src: &[u8]) -> (r: Result<OracleDataAccount, ProcessError>)
        ensures
            match OracleDataAccountView::unpacked(src@) {
                Some(v) => r matches Ok(a) && a@ == v,
                None => r matches Err(e) && e == ProcessError::InvalidAccountData,
            },
    {
        if src.len() < 80 {
            return Err(ProcessError::InvalidAccountData);
        }
        Ok(
            OracleDataAccount {
                sentiment_score: read_u64_le(src, 0),
                timestamp: read_i64_le(src, 8),
                signature: read_bytes::<64>(src, 16),
            },
        )
    }

    /// Reads an attestation from bytes that must be exactly as wide as an
    /// attestation.
    pub fn unpack_unchecked(input: &[u8]) -> (r: Result<OracleDataAccount, ProcessError>)
        ensures
            match OracleDataAccountView::unpacked_exact(input@) {
                Some(v) => r matches Ok(a) && a@ == v,
                None => r matches Err(e) && e == ProcessError::InvalidAccountData,
            },
    {
        if input.len() != OracleDataAccount::LEN {
            return Err(ProcessError::InvalidAccountData);
        }
        OracleDataAccount::unpack_from_slice(input)
    }

    /// Writes the attestation into `dst`, which must be exactly as wide as an
    /// attestation; otherwise `dst` keeps its bytes.
    pub fn pack(src: OracleDataAccount, dst: &mut [u8]) -> (r: Result<(), ProcessError>)
        ensures
            old(dst)@.len() == 80 ==> r is Ok && final(dst)@ == src@.packed(),
            old(dst)@.len() != 80 ==> r == Err::<(), ProcessError>(ProcessError::InvalidAccountData)
                && final(dst)@ == old(dst)@,
    {
        if dst.len() != OracleDataAccount::LEN {
            return Err(ProcessError::InvalidAccountData);
        }
        src.pack_into_slice(dst);
        assert(dst@ =~= src@.packed());
        Ok(())
    }
}

/// The evolving state of one token.
#[derive(Debug, Clone, Copy, PartialEq, Eq)]
pub struct NftEvolutionAccount {
    /// Whether the record has been set up.
    pub is_initialized: bool,
    /// The mint of the token that this state belongs to.
    pub nft_mint: [u8; 32],
    /// The score of the last attestation taken in.
    pub last_processed_sentiment: u64,
    /// The timestamp of the last attestation taken in.
    pub last_processed_timestamp: i64,
    /// The points gathered so far.
    pub evolution_points: u64,
}

/// What a token's state record holds, as plain values.
pub struct NftEvolutionAccountView {
    pub is_initialized: bool,
    pub nft_mint: Seq<u8>,
    pub last_processed_sentiment: u64,
    pub last_processed_timestamp: i64,
    pub evolution_points: u64,
}

impl View for NftEvolutionAccount {
    type V = NftEvolutionAccountView;

    open spec fn view(&self) -> NftEvolutionAccountView {
        NftEvolutionAccountView {
            is_initialized: self.is_initialized,
            nft_mint: self.nft_mint@,
            last_processed_sentiment: self.last_processed_sentiment,
            last_processed_timestamp: self.last_processed_timestamp,
            evolution_points: self.evolution_points,
        }
    }
}

impl NftEvolutionAccountView {
    /// The mint has the width of a key.
    pub open spec fn well_formed(self) -> bool {
        self.nft_mint.len() == 32
    }

    /// The record's 57 bytes: the flag, the mint, the last score, the last
    /// timestamp, the points.
    pub open spec fn packed(self) -> Seq<u8> {
        seq![flag_byte(self.is_initialized)] + self.nft_mint + u64_to_le(
            self.last_processed_sentiment,
        ) + i64_to_le(self.last_processed_timestamp) + u64_to_le(self.evolution_points)
    }

    /// The record that the first 57 bytes stand for; none where there are
    /// fewer bytes or the flag byte is neither 0 nor 1.
    pub open spec fn unpacked(bytes: Seq<u8>) -> Option<NftEvolutionAccountView> {
        if bytes.len() < 57 || bytes[0] > 1 {
            None
        } else {
            Some(
                NftEvolutionAccountView {
                    is_initialized: bytes[0] == 1,
                    nft_mint: bytes.subrange(1, 33),
                    last_processed_sentiment: u64_from_le(bytes.subrange(33, 41)),
                    last_processed_timestamp: i64_from_le(bytes.subrange(41, 49)),
                    evolution_points: u64_from_le(bytes.subrange(49, 57)),
                },
            )
        }
    }

    /// The record that `bytes` stand for when they are exactly as wide as
    /// one; none otherwise.
    pub open spec fn unpacked_exact(bytes: Seq<u8>) -> Option<NftEvolutionAccountView> {
        if bytes.len() == 57 {
            Self::unpacked(bytes)
        } else {
            None
        }
    }

    /// Packing a record and unpacking the bytes gives the record back.
    pub proof fn lemma_round_trip(self)
        requires
            self.well_formed(),
        ensures
            self.packed().len() == 57,
            Self::unpacked(self.packed()) == Some(self),
    {
        lemma_u64_le_round_trip(self.last_processed_sentiment);
        lemma_i64_le_round_trip(self.last_processed_timestamp);
        lemma_u64_le_round_trip(self.evolution_points);
        let bytes = self.packed();
        assert(bytes.subrange(1, 33) =~= self.nft_mint);
        assert(bytes.subrange(33, 41) =~= u64_to_le(self.last_processed_sentiment));
        assert(bytes.subrange(41, 49) =~= i64_to_le(self.last_processed_timestamp));
        assert(bytes.subrange(49, 57) =~= u64_to_le(self.evolution_points));
    }

    /// Unpacking bytes and packing the record gives the first 57 bytes back.
    pub proof fn lemma_bytes_round_trip(bytes: Seq<u8>)
        requires
            Self::unpacked(bytes) is Some,
        ensures
            Self::unpacked(bytes)->Some_0.well_formed(),
            Self::unpacked(bytes)->Some_0.packed() == bytes.subrange(0, 57),
    {
        lemma_u64_le_bytes_round_trip(bytes.subrange(33, 41));
        lemma_i64_le_bytes_round_trip(bytes.subrange(41, 49));
        lemma_u64_le_bytes_round_trip(bytes.subrange(49, 57));
        assert(Self::unpacked(bytes)->Some_0.packed() =~= bytes.subrange(0, 57));
    }
}

impl Default for NftEvolutionAccount {
    /// The record before it is set up: every byte zero.
    fn default() -> (r: NftEvolutionAccount)
        ensures
            !r.is_initialized,
            r.nft_mint@ == Seq::new(32, |i: int| 0u8),
            r.last_processed_sentiment == 0,
            r.last_processed_timestamp == 0,
            r.evolution_points == 0,
    {
        let r = NftEvolutionAccount {
            is_initialized: false,
            nft_mint: [0u8; 32],
            last_processed_sentiment: 0,
            last_processed_timestamp: 0,
            evolution_points: 0,
        };
        assert(r.nft_mint@ =~= Seq::new(32, |i: int| 0u8));
        r
    }
}

impl NftEvolutionAccount {
    /// The width of the record in bytes.
    pub const LEN: usize = 57;

    /// Whether the record has been set up.
    pub fn is_initialized(&self) -> (b: bool)
        ensures
            b == self.is_initialized,
    {
        self.is_initialized
    }

    /// Writes the record over the first 57 bytes of `dst`; the bytes behind
    /// them keep their values.
    pub fn pack_into_slice(&self, dst: &mut [u8])
        requires
            old(dst)@.len() >= 57,
        ensures
            final(dst)@ == self@.packed() + old(dst)@.subrange(57, old(dst)@.len() as int),
    {
        dst[0] = if self.is_initialized {
            1
        } else {
            0
        };
        write_bytes(dst, 1, &self.nft_mint);
        write_u64_le(dst, 33, self.last_processed_sentiment);
        write_i64_le(dst, 41, self.last_processed_timestamp);
        write_u64_le(dst, 49, self.evolution_points);
        assert(dst@ =~= self@.packed() + old(dst)@.subrange(57, old(dst)@.len() as int));
    }

    /// Reads a record from the first 57 bytes of `src`.
    pub fn unpack_from_slice(src: &[u8]) -> (r: Result<NftEvolutionAccount, ProcessError>)
        ensures
            match NftEvolutionAccountView::unpacked(src@) {
                Some(v) => r matches Ok(s) && s@ == v,
                None => r matches Err(e) && e == ProcessError::InvalidAccountData,
            },
    {
        if src.len() < 57 || src[0] > 1 {
            return Err(ProcessError::InvalidAccountData);
        }
        Ok(
            NftEvolutionAccount {
                is_initialized: src[0] == 1,
                nft_mint: read_bytes::<32>(src, 1),
                last_processed_sentiment: read_u64_le(src, 33),
                last_processed_timestamp: read_i64_le(src, 41),
                evolution_points: read_u64_le(src, 49),
            },
        )
    }

    /// Reads a record from bytes that must be exactly as wide as the record.
    pub fn unpack_unchecked(input: &[u8]) -> (r: Result<NftEvolutionAccount, ProcessError>)
        ensures
            match NftEvolutionAccountView::unpacked_exact(input@) {
                Some(v) => r matches Ok(s) && s@ == v,
                None => r matches Err(e) && e == ProcessError::InvalidAccountData,
            },
    {
        if input.len() != NftEvolutionAccount::LEN {
            return Err(ProcessError::InvalidAccountData);
        }
        NftEvolutionAccount::unpack_from_slice(input)
    }

    /// Writes the record into `dst`, which must be exactly as wide as the
    /// record; otherwise `dst` keeps its bytes.
    pub fn pack(src: NftEvolutionAccount, dst: &mut [u8]) -> (r: Result<(), ProcessError>)
        ensures
            old(dst)@.len() == 57 ==> r is Ok && final(dst)@ == src@.packed(),
            old(dst)@.len() != 57 ==> r == Err::<(), ProcessError>(ProcessError::InvalidAccountData)
                && final(dst)@ == old(dst)@,
    {
        if dst.len() != NftEvolutionAccount::LEN {
            return Err(ProcessError::InvalidAccountData);
        }
        src.pack_into_slice(dst);
        assert(dst@ =~= src@.packed());
        Ok(())
    }
}

} // verus!
