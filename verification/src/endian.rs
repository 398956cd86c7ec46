//! Numbers as bytes: little-endian fields and two's complement.

use vstd::prelude::*;

verus! {

/// The four bytes of a 32-bit number, least significant first.
#[verifier::opaque]
pub open spec fn u32_bytes(x: u32) -> Seq<u8> {
    seq![
        (x % 0x100) as u8,
        (x / 0x100 % 0x100) as u8,
        (x / 0x1_0000 % 0x100) as u8,
        (x / 0x100_0000 % 0x100) as u8,
    ]
}

/// The 32-bit number that four bytes stand for, least significant first.
#[verifier::opaque]
pub open spec fn u32_of_bytes(bytes: Seq<u8>) -> u32
    recommends
        bytes.len() == 4,
{
    (bytes[0] + bytes[1] * 0x100 + bytes[2] * 0x1_0000 + bytes[3] * 0x100_0000) as u32
}

/// The eight bytes of a 64-bit number, least significant first.
#[verifier::opaque]
pub open spec fn u64_bytes(x: u64) -> Seq<u8> {
    u32_bytes((x % 0x1_0000_0000) as u32) + u32_bytes((x / 0x1_0000_0000) as u32)
}

/// The 64-bit number that eight bytes stand for, least significant first.
#[verifier::opaque]
pub open spec fn u64_of_bytes(bytes: Seq<u8>) -> u64
    recommends
        bytes.len() == 8,
{
    (u32_of_bytes(bytes.subrange(0, 4)) + u32_of_bytes(bytes.subrange(4, 8)) * 0x1_0000_0000) as u64
}

/// The bit pattern of a signed number in two's complement.
pub open spec fn i64_bits(v: i64) -> u64 {
    if v >= 0 {
        v as u64
    } else {
        (v + 0x1_0000_0000_0000_0000) as u64
    }
}

/// The signed number that a bit pattern stands for in two's complement.
pub open spec fn i64_of_bits(bits: u64) -> i64 {
    if bits < 0x8000_0000_0000_0000 {
        bits as i64
    } else {
        (bits - 0x1_0000_0000_0000_0000) as i64
    }
}

/// The bytes of a 32-bit number are four, and stand for that number.
pub proof fn lemma_u32_of_bytes_of_u32(x: u32)
    ensures
        u32_bytes(x).len() == 4,
        u32_of_bytes(u32_bytes(x)) == x,
{
    reveal(u32_bytes);
    reveal(u32_of_bytes);
    let q1 = x as int / 0x100;
    let q2 = x as int / 0x1_0000;
    let q3 = x as int / 0x100_0000;
    assert(q1 / 0x100 == q2) by {
        vstd::arithmetic::div_mod::lemma_div_denominator(x as int, 0x100, 0x100);
    }
    assert(q2 / 0x100 == q3) by {
        vstd::arithmetic::div_mod::lemma_div_denominator(x as int, 0x1_0000, 0x100);
    }
    assert(x == q1 * 0x100 + x % 0x100);
    assert(q1 == q2 * 0x100 + q1 % 0x100);
    assert(q2 == q3 * 0x100 + q2 % 0x100);
    assert(q3 % 0x100 == q3);
}

/// A number written as a digit below 256 and 256 times a rest splits into the two.
proof fn lemma_low_byte(digit: int, rest: int)
    requires
        0 <= digit < 0x100,
    ensures
        (digit + rest * 0x100) % 0x100 == digit,
        (digit + rest * 0x100) / 0x100 == rest,
{
    vstd::arithmetic::div_mod::lemma_fundamental_div_mod_converse(
        digit + rest * 0x100,
        0x100,
        rest,
        digit,
    );
}

/// Four bytes are the bytes of the number they stand for.
pub proof fn lemma_u32_bytes_of_bytes(bytes: Seq<u8>)
    requires
        bytes.len() == 4,
    ensures
        u32_bytes(u32_of_bytes(bytes)) == bytes,
{
    reveal(u32_bytes);
    reveal(u32_of_bytes);
    let b0 = bytes[0] as int;
    let b1 = bytes[1] as int;
    let b2 = bytes[2] as int;
    let b3 = bytes[3] as int;
    let x = b0 + b1 * 0x100 + b2 * 0x1_0000 + b3 * 0x100_0000;
    let x1 = b1 + b2 * 0x100 + b3 * 0x1_0000;
    let x2 = b2 + b3 * 0x100;
    lemma_low_byte(b0, x1);
    lemma_low_byte(b1, x2);
    lemma_low_byte(b2, b3);
    lemma_low_byte(b3, 0);
    assert(x == b0 + x1 * 0x100);
    assert(x1 == b1 + x2 * 0x100);
    assert(x / 0x100 == x1);
    assert(x1 / 0x100 == x2);
    assert(x / 0x1_0000 == x2) by {
        vstd::arithmetic::div_mod::lemma_div_denominator(x, 0x100, 0x100);
    }
    assert(x / 0x100_0000 == b3) by {
        vstd::arithmetic::div_mod::lemma_div_denominator(x, 0x1_0000, 0x100);
    }
    assert(u32_of_bytes(bytes) == x);
    assert(u32_bytes(u32_of_bytes(bytes)) =~= bytes);
}

/// The bytes of a 64-bit number are eight, and stand for that number.
pub proof fn lemma_u64_of_bytes_of_u64(x: u64)
    ensures
        u64_bytes(x).len() == 8,
        u64_of_bytes(u64_bytes(x)) == x,
{
    reveal(u64_bytes);
    reveal(u64_of_bytes);
    let low = (x % 0x1_0000_0000) as u32;
    let high = (x / 0x1_0000_0000) as u32;
    lemma_u32_of_bytes_of_u32(low);
    lemma_u32_of_bytes_of_u32(high);
    assert(u64_bytes(x).subrange(0, 4) =~= u32_bytes(low));
    assert(u64_bytes(x).subrange(4, 8) =~= u32_bytes(high));
}

/// Eight bytes are the bytes of the number they stand for.
pub proof fn lemma_u64_bytes_of_bytes(bytes: Seq<u8>)
    requires
        bytes.len() == 8,
    ensures
        u64_bytes(u64_of_bytes(bytes)) == bytes,
{
    reveal(u64_bytes);
    reveal(u64_of_bytes);
    let front = bytes.subrange(0, 4);
    let back = bytes.subrange(4, 8);
    let low = u32_of_bytes(front);
    let high = u32_of_bytes(back);
    let x = low + high * 0x1_0000_0000;
    vstd::arithmetic::div_mod::lemma_fundamental_div_mod_converse(
        x,
        0x1_0000_0000,
        high as int,
        low as int,
    );
    assert(u64_of_bytes(bytes) == x);
    assert((x % 0x1_0000_0000) as u32 == low);
    assert((x / 0x1_0000_0000) as u32 == high);
    assert(u32_bytes(low) == front) by {
        lemma_u32_bytes_of_bytes(front);
    }
    assert(u32_bytes(high) == back) by {
        lemma_u32_bytes_of_bytes(back);
    }
    assert(bytes =~= front + back);
}

/// A signed number and its bit pattern stand for each other.
pub proof fn lemma_i64_bits(v: i64, bits: u64)
    ensures
        i64_of_bits(i64_bits(v)) == v,
        i64_bits(i64_of_bits(bits)) == bits,
{
}

/// The 32-bit number that four bytes stand for.
pub fn u32_from_le(bytes: &[u8]) -> (x: u32)
    requires
        bytes@.len() == 4,
    ensures
        x == u32_of_bytes(bytes@),
{
    proof {
        reveal(u32_of_bytes);
    }
    let b0: u32 = bytes[0] as u32;
    let b1: u32 = bytes[1] as u32;
    let b2: u32 = bytes[2] as u32;
    let b3: u32 = bytes[3] as u32;
    b0 + b1 * 0x100 + b2 * 0x1_0000 + b3 * 0x100_0000
}

/// The 64-bit number that eight bytes stand for.
pub fn u64_from_le(bytes: &[u8]) -> (x: u64)
    requires
        bytes@.len() == 8,
    ensures
        x == u64_of_bytes(bytes@),
{
    proof {
        reveal(u64_of_bytes);
    }
    let low: u64 = u32_from_le(vstd::slice::slice_subrange(bytes, 0, 4)) as u64;
    let high: u64 = u32_from_le(vstd::slice::slice_subrange(bytes, 4, 8)) as u64;
    low + high * 0x1_0000_0000
}

/// Appends the four bytes of a 32-bit number.
pub fn push_u32_le(out: &mut Vec<u8>, x: u32)
    ensures
        final(out)@ == old(out)@ + u32_bytes(x),
{
    proof {
        reveal(u32_bytes);
    }
    out.push((x % 0x100) as u8);
    out.push((x / 0x100 % 0x100) as u8);
    out.push((x / 0x1_0000 % 0x100) as u8);
    out.push((x / 0x100_0000 % 0x100) as u8);
    assert(out@ =~= old(out)@ + u32_bytes(x));
}

/// Appends the eight bytes of a 64-bit number.
pub fn push_u64_le(out: &mut Vec<u8>, x: u64)
    ensures
        final(out)@ == old(out)@ + u64_bytes(x),
{
    proof {
        reveal(u64_bytes);
    }
    push_u32_le(out, (x % 0x1_0000_0000) as u32);
    push_u32_le(out, (x / 0x1_0000_0000) as u32);
    assert(out@ =~= old(out)@ + u64_bytes(x));
}

/// The bit pattern of a signed number.
pub fn i64_to_bits(v: i64) -> (bits: u64)
    ensures
        bits == i64_bits(v),
{
    assert(v >= 0 ==> v as u64 == v) by (bit_vector);
    assert(v < 0 ==> v as u64 == v + 0x1_0000_0000_0000_0000) by (bit_vector);
    v as u64
}

/// The signed number of a bit pattern.
pub fn i64_from_bits(bits: u64) -> (v: i64)
    ensures
        v == i64_of_bits(bits),
{
    assert(bits < 0x8000_0000_0000_0000u64 ==> bits as i64 == bits) by (bit_vector);
    assert(bits >= 0x8000_0000_0000_0000u64 ==> bits as i64 == bits - 0x1_0000_0000_0000_0000)
        by (bit_vector);
    bits as i64
}

} // verus!
