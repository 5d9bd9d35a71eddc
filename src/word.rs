//! 6-bit words and 12-bit addresses held in plain integers.
use vstd::prelude::*;

verus! {

/// Largest 6-bit value; also the mask that keeps a byte within six bits.
pub const W6_MAX: u8 = 63;

/// Bitwise complement within six bits.
pub open spec fn not6(v: u8) -> u8 {
    (!v) & 63u8
}

/// `NOT (a OR b)` within six bits.
pub open spec fn nor6(a: u8, b: u8) -> u8 {
    (!(a | b)) & 63u8
}

/// Left rotation of a 6-bit value by `k` places, `k < 6`.
pub open spec fn rotl6(v: u8, k: u8) -> u8 {
    ((v << k) | (v >> ((6 - k) as u8))) & 63u8
}

/// Right rotation of a 6-bit value by `k` places, `k < 6`.
pub open spec fn rotr6(v: u8, k: u8) -> u8 {
    ((v >> k) | (v << ((6 - k) as u8))) & 63u8
}

/// High half of a 12-bit address.
pub open spec fn hi6(a: u16) -> u8 {
    ((a / 64) % 64) as u8
}

/// Low half of a 12-bit address.
pub open spec fn lo6(a: u16) -> u8 {
    (a % 64) as u8
}

/// The 12-bit address made of two 6-bit halves.
pub open spec fn join12(hi: u8, lo: u8) -> int {
    hi as int * 64 + lo as int
}

pub proof fn lemma_mask6(v: u8)
    ensures
        v & 63u8 < 64,
        v < 64 ==> v & 63u8 == v,
{
    assert(v & 63u8 < 64) by (bit_vector);
    assert(v < 64 ==> v & 63u8 == v) by (bit_vector);
}

pub fn not_w6(v: u8) -> (r: u8)
    ensures
        r == not6(v),
        r < 64,
{
    proof { lemma_mask6(!v); }
    (!v) & W6_MAX
}

pub fn nor_w6(a: u8, b: u8) -> (r: u8)
    ensures
        r == nor6(a, b),
        r < 64,
{
    proof { lemma_mask6(!(a | b)); }
    (!(a | b)) & W6_MAX
}

pub fn rotl_w6(v: u8, k: u8) -> (r: u8)
    requires
        k < 6,
    ensures
        r == rotl6(v, k),
        r < 64,
{
    proof { lemma_mask6((v << k) | (v >> ((6 - k) as u8))); }
    ((v << k) | (v >> (6 - k))) & W6_MAX
}

pub fn rotr_w6(v: u8, k: u8) -> (r: u8)
    requires
        k < 6,
    ensures
        r == rotr6(v, k),
        r < 64,
{
    proof { lemma_mask6((v >> k) | (v << ((6 - k) as u8))); }
    ((v >> k) | (v << (6 - k))) & W6_MAX
}

} // verus!
