//! Fixed-width integers in network byte order, the building block of every
//! binary wire value.

use vstd::prelude::*;

verus! {

/// The four bytes of `x`, most significant first.
#[verifier::opaque]
pub open spec fn u32_to_be(x: u32) -> Seq<u8> {
    seq![
        (x / 0x100_0000) as u8,
        ((x / 0x1_0000) % 0x100) as u8,
        ((x / 0x100) % 0x100) as u8,
        (x % 0x100) as u8,
    ]
}

/// The number that the first four bytes of `b` spell, most significant first.
#[verifier::opaque]
pub open spec fn u32_from_be(b: Seq<u8>) -> u32
    recommends
        b.len() >= 4,
{
    (b[0] * 0x100_0000 + b[1] * 0x1_0000 + b[2] * 0x100 + b[3]) as u32
}

/// The eight bytes of `x`, most significant first.
pub open spec fn u64_to_be(x: u64) -> Seq<u8> {
    u32_to_be((x / 0x1_0000_0000) as u32) + u32_to_be((x % 0x1_0000_0000) as u32)
}

/// The number that the first eight bytes of `b` spell, most significant first.
pub open spec fn u64_from_be(b: Seq<u8>) -> u64
    recommends
        b.len() >= 8,
{
    (u32_from_be(b.subrange(0, 4)) * 0x1_0000_0000 + u32_from_be(b.subrange(4, 8))) as u64
}

/// The sixteen bytes of `x`, most significant first.
pub open spec fn u128_to_be(x: u128) -> Seq<u8> {
    u64_to_be((x / 0x1_0000_0000_0000_0000) as u64) + u64_to_be(
        (x % 0x1_0000_0000_0000_0000) as u64,
    )
}

/// The number that the first sixteen bytes of `b` spell, most significant
/// first.
pub open spec fn u128_from_be(b: Seq<u8>) -> u128
    recommends
        b.len() >= 16,
{
    (u64_from_be(b.subrange(0, 8)) * 0x1_0000_0000_0000_0000 + u64_from_be(b.subrange(8, 16)))
        as u128
}

/// The two's-complement bit pattern of a signed 64-bit integer.
pub open spec fn i64_to_bits(i: i64) -> u64 {
    if i >= 0 {
        i as u64
    } else {
        (i + 0x1_0000_0000_0000_0000) as u64
    }
}

/// The signed 64-bit integer that a two's-complement bit pattern stands for.
pub open spec fn i64_from_bits(bits: u64) -> i64 {
    if bits < 0x8000_0000_0000_0000 {
        bits as i64
    } else {
        (bits - 0x1_0000_0000_0000_0000) as i64
    }
}

/// Reading back the bytes of a 32-bit number gives the number.
pub proof fn lemma_u32_round_trip(x: u32)
    ensures
        u32_to_be(x).len() == 4,
        u32_from_be(u32_to_be(x)) == x,
{
    reveal(u32_to_be);
    reveal(u32_from_be);
}

/// Writing the number that four bytes spell gives the four bytes back.
pub proof fn lemma_u32_bytes_round_trip(b: Seq<u8>)
    requires
        b.len() == 4,
    ensures
        u32_to_be(u32_from_be(b)) == b,
{
    let b0 = b[0] as int;
    let b1 = b[1] as int;
    let b2 = b[2] as int;
    let b3 = b[3] as int;
    let x = b0 * 0x100_0000 + b1 * 0x1_0000 + b2 * 0x100 + b3;
    assert(x / 0x100_0000 == b0);
    assert(x / 0x1_0000 == b0 * 0x100 + b1);
    assert(x / 0x100 == b0 * 0x1_0000 + b1 * 0x100 + b2);
    assert(x % 0x100 == b3);
    assert(u32_from_be(b) == x) by {
        reveal(u32_from_be);
    }
    assert(u32_to_be(x as u32) =~= b) by {
        reveal(u32_to_be);
    }
}

/// Reading back the bytes of a 64-bit number gives the number.
pub proof fn lemma_u64_round_trip(x: u64)
    ensures
        u64_to_be(x).len() == 8,
        u64_from_be(u64_to_be(x)) == x,
{
    let hi = (x / 0x1_0000_0000) as u32;
    let lo = (x % 0x1_0000_0000) as u32;
    lemma_u32_round_trip(hi);
    lemma_u32_round_trip(lo);
    let b = u64_to_be(x);
    assert(b.subrange(0, 4) =~= u32_to_be(hi));
    assert(b.subrange(4, 8) =~= u32_to_be(lo));
}

/// Writing the number that eight bytes spell gives the eight bytes back.
pub proof fn lemma_u64_bytes_round_trip(b: Seq<u8>)
    requires
        b.len() == 8,
    ensures
        u64_to_be(u64_from_be(b)) == b,
{
    let hi = u32_from_be(b.subrange(0, 4));
    let lo = u32_from_be(b.subrange(4, 8));
    lemma_u32_bytes_round_trip(b.subrange(0, 4));
    lemma_u32_bytes_round_trip(b.subrange(4, 8));
    let x = u64_from_be(b);
    assert(x == hi * 0x1_0000_0000 + lo);
    assert(x / 0x1_0000_0000 == hi);
    assert(x % 0x1_0000_0000 == lo);
    assert(u64_to_be(x) =~= b);
}

/// Reading back the bytes of a 128-bit number gives the number.
pub proof fn lemma_u128_round_trip(x: u128)
    ensures
        u128_to_be(x).len() == 16,
        u128_from_be(u128_to_be(x)) == x,
{
    let hi = (x / 0x1_0000_0000_0000_0000) as u64;
    let lo = (x % 0x1_0000_0000_0000_0000) as u64;
    lemma_u64_round_trip(hi);
    lemma_u64_round_trip(lo);
    let b = u128_to_be(x);
    assert(b.subrange(0, 8) =~= u64_to_be(hi));
    assert(b.subrange(8, 16) =~= u64_to_be(lo));
}

/// Writing the number that sixteen bytes spell gives the sixteen bytes
/// back.
pub proof fn lemma_u128_bytes_round_trip(b: Seq<u8>)
    requires
        b.len() == 16,
    ensures
        u128_to_be(u128_from_be(b)) == b,
{
    let hi = u64_from_be(b.subrange(0, 8));
    let lo = u64_from_be(b.subrange(8, 16));
    lemma_u64_bytes_round_trip(b.subrange(0, 8));
    lemma_u64_bytes_round_trip(b.subrange(8, 16));
    let x = u128_from_be(b);
    assert(x == hi * 0x1_0000_0000_0000_0000 + lo);
    assert(x / 0x1_0000_0000_0000_0000 == hi);
    assert(x % 0x1_0000_0000_0000_0000 == lo);
    assert(u128_to_be(x) =~= b);
}

/// A signed integer and its bit pattern determine each other.
pub proof fn lemma_i64_bits_round_trip(i: i64, bits: u64)
    ensures
        i64_from_bits(i64_to_bits(i)) == i,
        i64_to_bits(i64_from_bits(bits)) == bits,
{
}

/// Appends `src` to `out`.
pub fn append_bytes(out: &mut Vec<u8>, src: &[u8])
    ensures
        final(out)@ == old(out)@ + src@,
{
    let n = src.len();
    let mut i: usize = 0;
    while i < n
        invariant
            n == src@.len(),
            i <= n,
            out@ == old(out)@ + src@.subrange(0, i as int),
        decreases n - i,
    {
        out.push(src[i]);
        i = i + 1;
        assert(out@ =~= old(out)@ + src@.subrange(0, i as int));
    }
    assert(src@.subrange(0, n as int) =~= src@);
}

/// Appends the four bytes of `x`, most significant first.
pub fn put_u32(out: &mut Vec<u8>, x: u32)
    ensures
        final(out)@ == old(out)@ + u32_to_be(x),
{
    out.push((x / 0x100_0000) as u8);
    out.push(((x / 0x1_0000) % 0x100) as u8);
    out.push(((x / 0x100) % 0x100) as u8);
    out.push((x % 0x100) as u8);
    reveal(u32_to_be);
    assert(out@ =~= old(out)@ + u32_to_be(x));
}

/// Appends the eight bytes of `x`, most significant first.
pub fn put_u64(out: &mut Vec<u8>, x: u64)
    ensures
        final(out)@ == old(out)@ + u64_to_be(x),
{
    let hi: u32 = (x / 0x1_0000_0000) as u32;
    let lo: u32 = (x % 0x1_0000_0000) as u32;
    put_u32(out, hi);
    put_u32(out, lo);
    assert(out@ =~= old(out)@ + u64_to_be(x));
}

/// Reads the 32-bit number that starts at offset `at`.
pub fn get_u32(bytes: &[u8], at: usize) -> (x: u32)
    requires
        at + 4 <= bytes@.len(),
    ensures
        x == u32_from_be(bytes@.subrange(at as int, at + 4)),
{
    let b0: u32 = bytes[at] as u32;
    let b1: u32 = bytes[at + 1] as u32;
    let b2: u32 = bytes[at + 2] as u32;
    let b3: u32 = bytes[at + 3] as u32;
    reveal(u32_from_be);
    b0 * 0x100_0000 + b1 * 0x1_0000 + b2 * 0x100 + b3
}

/// Reads the 64-bit number that starts at offset `at`.
pub fn get_u64(bytes: &[u8], at: usize) -> (x: u64)
    requires
        at + 8 <= bytes@.len(),
    ensures
        x == u64_from_be(bytes@.subrange(at as int, at + 8)),
{
    let n = bytes.len();
    assert(at + 8 <= n);
    let hi: u64 = get_u32(bytes, at) as u64;
    let lo: u64 = get_u32(bytes, at + 4) as u64;
    let ghost b = bytes@.subrange(at as int, at + 8);
    assert(b.subrange(0, 4) =~= bytes@.subrange(at as int, at + 4));
    assert(b.subrange(4, 8) =~= bytes@.subrange(at + 4, at + 8));
    hi * 0x1_0000_0000 + lo
}

/// Appends the sixteen bytes of `x`, most significant first.
pub fn put_u128(out: &mut Vec<u8>, x: u128)
    ensures
        final(out)@ == old(out)@ + u128_to_be(x),
{
    let hi: u64 = (x / 0x1_0000_0000_0000_0000) as u64;
    let lo: u64 = (x % 0x1_0000_0000_0000_0000) as u64;
    put_u64(out, hi);
    put_u64(out, lo);
    assert(out@ =~= old(out)@ + u128_to_be(x));
}

/// Reads the 128-bit number that starts at offset `at`.
pub fn get_u128(bytes: &[u8], at: usize) -> (x: u128)
    requires
        at + 16 <= bytes@.len(),
    ensures
        x == u128_from_be(bytes@.subrange(at as int, at + 16)),
{
    let n = bytes.len();
    assert(at + 16 <= n);
    let hi: u128 = get_u64(bytes, at) as u128;
    let lo: u128 = get_u64(bytes, at + 8) as u128;
    let ghost b = bytes@.subrange(at as int, at + 16);
    assert(b.subrange(0, 8) =~= bytes@.subrange(at as int, at + 8));
    assert(b.subrange(8, 16) =~= bytes@.subrange(at + 8, at + 16));
    hi * 0x1_0000_0000_0000_0000 + lo
}

/// The two's-complement bit pattern of `i`.
pub fn bits_of_i64(i: i64) -> (bits: u64)
    ensures
        bits == i64_to_bits(i),
{
    if i >= 0 {
        i as u64
    } else {
        let low: u64 = (i - i64::MIN) as u64;
        low + 0x8000_0000_0000_0000
    }
}

/// The signed integer that the bit pattern `bits` stands for.
pub fn i64_of_bits(bits: u64) -> (i: i64)
    ensures
        i == i64_from_bits(bits),
{
    if bits < 0x8000_0000_0000_0000 {
        bits as i64
    } else {
        let low: i64 = (bits - 0x8000_0000_0000_0000) as i64;
        low + i64::MIN
    }
}

} // verus!
