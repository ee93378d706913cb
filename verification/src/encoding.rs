//! Fixed-width little-endian integers, as they lie in a record's bytes.

use vstd::prelude::*;

verus! {

/// The unsigned number that eight little-endian bytes stand for: byte `i`
/// weighs `256^i`.
pub open spec fn u64_from_le(b: Seq<u8>) -> u64
    recommends
        b.len() == 8,
{
    (b[0] + b[1] * 0x100 + b[2] * 0x1_0000 + b[3] * 0x100_0000 + b[4] * 0x1_0000_0000 + b[5]
        * 0x100_0000_0000 + b[6] * 0x1_0000_0000_0000 + b[7] * 0x100_0000_0000_0000) as u64
}

/// The eight little-endian bytes of an unsigned number: byte `i` is the
/// `i`-th digit in base 256.
pub open spec fn u64_to_le(x: u64) -> Seq<u8> {
    seq![
        (x % 0x100) as u8,
        (x / 0x100 % 0x100) as u8,
        (x / 0x1_0000 % 0x100) as u8,
        (x / 0x100_0000 % 0x100) as u8,
        (x / 0x1_0000_0000 % 0x100) as u8,
        (x / 0x100_0000_0000 % 0x100) as u8,
        (x / 0x1_0000_0000_0000 % 0x100) as u8,
        (x / 0x100_0000_0000_0000 % 0x100) as u8,
    ]
}

/// The 64-bit pattern of a signed number in two's complement.
pub open spec fn twos_complement(x: i64) -> u64 {
    if x >= 0 {
        x as u64
    } else {
        (x + 0x1_0000_0000_0000_0000) as u64
    }
}

/// The signed number that a 64-bit two's complement pattern stands for.
pub open spec fn from_twos_complement(u: u64) -> i64 {
    if u < 0x8000_0000_0000_0000 {
        u as i64
    } else {
        (u - 0x1_0000_0000_0000_0000) as i64
    }
}

/// The signed number that eight little-endian bytes stand for.
pub open spec fn i64_from_le(b: Seq<u8>) -> i64
    recommends
        b.len() == 8,
{
    from_twos_complement(u64_from_le(b))
}

/// The eight little-endian bytes of a signed number.
pub open spec fn i64_to_le(x: i64) -> Seq<u8> {
    u64_to_le(twos_complement(x))
}

/// Encoding yields eight bytes, and decoding them gives the number back.
pub proof fn lemma_u64_le_round_trip(x: u64)
    ensures
        u64_to_le(x).len() == 8,
        u64_from_le(u64_to_le(x)) == x,
{
    assert(x == (x % 0x100) + (x / 0x100 % 0x100) * 0x100 + (x / 0x1_0000 % 0x100) * 0x1_0000 + (x
        / 0x100_0000 % 0x100) * 0x100_0000 + (x / 0x1_0000_0000 % 0x100) * 0x1_0000_0000 + (x
        / 0x100_0000_0000 % 0x100) * 0x100_0000_0000 + (x / 0x1_0000_0000_0000 % 0x100)
        * 0x1_0000_0000_0000 + (x / 0x100_0000_0000_0000 % 0x100) * 0x100_0000_0000_0000)
        by (bit_vector);
}

/// Decoding eight bytes and encoding the number gives the bytes back, so no
/// two byte strings of that width stand for the same number.
pub proof fn lemma_u64_le_bytes_round_trip(b: Seq<u8>)
    requires
        b.len() == 8,
    ensures
        u64_to_le(u64_from_le(b)) == b,
{
    let x: u64 = u64_from_le(b);
    let (b0, b1, b2, b3): (u8, u8, u8, u8) = (b[0], b[1], b[2], b[3]);
    let (b4, b5, b6, b7): (u8, u8, u8, u8) = (b[4], b[5], b[6], b[7]);
    assert(x % 0x100 == b0 && x / 0x100 % 0x100 == b1 && x / 0x1_0000 % 0x100 == b2 && x
        / 0x100_0000 % 0x100 == b3 && x / 0x1_0000_0000 % 0x100 == b4 && x / 0x100_0000_0000
        % 0x100 == b5 && x / 0x1_0000_0000_0000 % 0x100 == b6 && x / 0x100_0000_0000_0000 % 0x100
        == b7) by (bit_vector)
        requires
            x == b0 + b1 * 0x100 + b2 * 0x1_0000 + b3 * 0x100_0000 + b4 * 0x1_0000_0000 + b5
                * 0x100_0000_0000 + b6 * 0x1_0000_0000_0000 + b7 * 0x100_0000_0000_0000,
    ;
    assert(u64_to_le(x) =~= b);
}

/// Two's complement is a bijection between the signed and the unsigned
/// 64-bit numbers.
pub proof fn lemma_twos_complement_round_trip(x: i64, u: u64)
    ensures
        from_twos_complement(twos_complement(x)) == x,
        twos_complement(from_twos_complement(u)) == u,
{
}

/// Encoding a signed number yields eight bytes, and decoding them gives the
/// number back.
pub proof fn lemma_i64_le_round_trip(x: i64)
    ensures
        i64_to_le(x).len() == 8,
        i64_from_le(i64_to_le(x)) == x,
{
    lemma_u64_le_round_trip(twos_complement(x));
    lemma_twos_complement_round_trip(x, 0);
}

/// Decoding eight bytes as a signed number and encoding it gives the bytes
/// back.
pub proof fn lemma_i64_le_bytes_round_trip(b: Seq<u8>)
    requires
        b.len() == 8,
    ensures
        i64_to_le(i64_from_le(b)) == b,
{
    lemma_twos_complement_round_trip(0, u64_from_le(b));
    lemma_u64_le_bytes_round_trip(b);
}

/// Reads the unsigned number stored in the eight bytes that start at `at`.
pub fn read_u64_le(bytes: &[u8], at: usize) -> (x: u64)
    requires
        at + 8 <= bytes@.len(),
    ensures
        x == u64_from_le(bytes@.subrange(at as int, at + 8)),
{
    let b0: u64 = bytes[at] as u64;
    let b1: u64 = bytes[at + 1] as u64;
    let b2: u64 = bytes[at + 2] as u64;
    let b3: u64 = bytes[at + 3] as u64;
    let b4: u64 = bytes[at + 4] as u64;
    let b5: u64 = bytes[at + 5] as u64;
    let b6: u64 = bytes[at + 6] as u64;
    let b7: u64 = bytes[at + 7] as u64;
    b0 + b1 * 0x100 + b2 * 0x1_0000 + b3 * 0x100_0000 + b4 * 0x1_0000_0000 + b5 * 0x100_0000_0000
        + b6 * 0x1_0000_0000_0000 + b7 * 0x100_0000_0000_0000
}

/// Reads the signed number stored in the eight bytes that start at `at`.
pub fn read_i64_le(bytes: &[u8], at: usize) -> (x: i64)
    requires
        at + 8 <= bytes@.len(),
    ensures
        x == i64_from_le(bytes@.subrange(at as int, at + 8)),
{
    let u: u64 = read_u64_le(bytes, at);
    if u < 0x8000_0000_0000_0000 {
        u as i64
    } else {
        (u - 0x8000_0000_0000_0000) as i64 + i64::MIN
    }
}

/// Stores an unsigned number in the eight bytes that start at `at`; every
/// other byte keeps its value.
pub fn write_u64_le(dst: &mut [u8], at: usize, x: u64)
    requires
        at + 8 <= old(dst)@.len(),
    ensures
        final(dst)@ == old(dst)@.subrange(0, at as int) + u64_to_le(x) + old(dst)@.subrange(
            at + 8,
            old(dst)@.len() as int,
        ),
{
    dst[at] = (x % 0x100) as u8;
    dst[at + 1] = (x / 0x100 % 0x100) as u8;
    dst[at + 2] = (x / 0x1_0000 % 0x100) as u8;
    dst[at + 3] = (x / 0x100_0000 % 0x100) as u8;
    dst[at + 4] = (x / 0x1_0000_0000 % 0x100) as u8;
    dst[at + 5] = (x / 0x100_0000_0000 % 0x100) as u8;
    dst[at + 6] = (x / 0x1_0000_0000_0000 % 0x100) as u8;
    dst[at + 7] = (x / 0x100_0000_0000_0000 % 0x100) as u8;
}

/// Stores a signed number in the eight bytes that start at `at`; every other
/// byte keeps its value.
pub fn write_i64_le(dst: &mut [u8], at: usize, x: i64)
    requires
        at + 8 <= old(dst)@.len(),
    ensures
        final(dst)@ == old(dst)@.subrange(0, at as int) + i64_to_le(x) + old(dst)@.subrange(
            at + 8,
            old(dst)@.len() as int,
        ),
{
    let u: u64 = if x >= 0 {
        x as u64
    } else {
        (x - i64::MIN) as u64 + 0x8000_0000_0000_0000
    };
    write_u64_le(dst, at, u);
}

/// Copies out the `N` bytes that start at `at`.
pub fn read_bytes<const N: usize>(bytes: &[u8], at: usize) -> (out: [u8; N])
    requires
        at + N <= bytes@.len(),
    ensures
        out@ == bytes@.subrange(at as int, at + N),
{
    let mut out: [u8; N] = [0u8; N];
    let total: usize = bytes.len();
    let mut i: usize = 0;
    while i < N
        invariant
            i <= N,
            at + N <= total == bytes@.len(),
            forall|j: int| 0 <= j < i ==> out@[j] == bytes@[at + j],
        decreases N - i,
    {
        out[i] = bytes[at + i];
        i += 1;
    }
    assert(out@ =~= bytes@.subrange(at as int, at + N));
    out
}

/// Stores `src` in the bytes that start at `at`; every other byte keeps its
/// value.
pub fn write_bytes(dst: &mut [u8], at: usize, src: &[u8])
    requires
        at + src@.len() <= old(dst)@.len(),
    ensures
        final(dst)@ == old(dst)@.subrange(0, at as int) + src@ + old(dst)@.subrange(
            at + src@.len(),
            old(dst)@.len() as int,
        ),
{
    let n: usize = src.len();
    let total: usize = dst.len();
    let mut i: usize = 0;
    while i < n
        invariant
            i <= n,
            n == src@.len(),
            at + n <= total == dst@.len(),
            dst@.len() == old(dst)@.len(),
            forall|j: int| 0 <= j < i ==> dst@[at + j] == src@[j],
            forall|j: int| 0 <= j < at || at + i <= j < dst@.len() ==> dst@[j] == old(dst)@[j],
        decreases n - i,
    {
        dst[at + i] = src[i];
        i += 1;
    }
    assert(dst@ =~= old(dst)@.subrange(0, at as int) + src@ + old(dst)@.subrange(
        at + src@.len(),
        old(dst)@.len() as int,
    ));
}

} // verus!
