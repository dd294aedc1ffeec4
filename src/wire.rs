//! Fixed-width little-endian integer fields.

use vstd::prelude::*;

verus! {

/// The four bytes of `x`, least significant first.
pub open spec fn u32_le(x: u32) -> Seq<u8> {
    seq![
        (x % 256) as u8,
        (x / 256 % 256) as u8,
        (x / 65536 % 256) as u8,
        (x / 16777216) as u8,
    ]
}

/// The 32-bit two's complement pattern of `x`, read as unsigned.
pub open spec fn twos_complement(x: i32) -> u32 {
    (if x < 0 {
        x + 0x1_0000_0000
    } else {
        x as int
    }) as u32
}

/// The four bytes of `x` in two's complement, least significant first.
pub open spec fn i32_le(x: i32) -> Seq<u8> {
    u32_le(twos_complement(x))
}

/// The unsigned value of the first four bytes of `s`, little-endian.
pub open spec fn le_value(s: Seq<u8>) -> int {
    s[0] + 256 * s[1] + 65536 * s[2] + 16777216 * s[3]
}

/// The signed value of the first four bytes of `s`, little-endian two's
/// complement.
pub open spec fn le_signed_value(s: Seq<u8>) -> int {
    if le_value(s) >= 0x8000_0000 {
        le_value(s) - 0x1_0000_0000
    } else {
        le_value(s)
    }
}

/// Reading back the bytes of an unsigned field gives its value.
pub proof fn lemma_u32_le_round_trip(x: u32)
    ensures
        u32_le(x).len() == 4,
        le_value(u32_le(x)) == x,
{
    assert(x % 256 + 256 * (x / 256 % 256) + 65536 * (x / 65536 % 256) + 16777216 * (x
        / 16777216) == x) by (bit_vector);
}

/// Reading back the bytes of a signed field gives its value.
pub proof fn lemma_i32_le_round_trip(x: i32)
    ensures
        i32_le(x).len() == 4,
        le_signed_value(i32_le(x)) == x,
{
    lemma_u32_le_round_trip(twos_complement(x));
}

/// The little-endian bytes of `x`.
pub fn u32_to_le(x: u32) -> (r: Vec<u8>)
    ensures
        r@ == u32_le(x),
{
    let r = vec![(x % 256) as u8, (x / 256 % 256) as u8, (x / 65536 % 256) as u8, (x / 16777216) as u8];
    assert(r@ =~= u32_le(x));
    r
}

/// The little-endian two's complement bytes of `x`.
pub fn i32_to_le(x: i32) -> (r: Vec<u8>)
    ensures
        r@ == i32_le(x),
{
    let u: u32 = if x < 0 {
        ((x + 0x7fff_ffff + 1) as u32) + 0x8000_0000
    } else {
        x as u32
    };
    u32_to_le(u)
}

/// The unsigned value of the four bytes of `b` at `at`, little-endian.
pub fn u32_from_le_at(b: &[u8], at: usize) -> (r: u32)
    requires
        at + 4 <= b@.len(),
    ensures
        r == le_value(b@.subrange(at as int, at + 4)),
{
    let r = b[at] as u32 + (b[at + 1] as u32) * 256 + (b[at + 2] as u32) * 65536 + (b[at + 3] as u32) * 16777216;
    r
}

/// The signed value of the four bytes of `b` at `at`, little-endian two's
/// complement.
pub fn i32_from_le_at(b: &[u8], at: usize) -> (r: i32)
    requires
        at + 4 <= b@.len(),
    ensures
        r == le_signed_value(b@.subrange(at as int, at + 4)),
{
    let v = u32_from_le_at(b, at);
    if v >= 0x8000_0000 {
        ((v - 0x8000_0000) as i32) - 0x7fff_ffff - 1
    } else {
        v as i32
    }
}

} // verus!
