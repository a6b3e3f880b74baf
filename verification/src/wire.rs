//! Little-endian integers as they stand on the wire.

use vstd::prelude::*;

verus! {

/// The two bytes of `x`, least significant first.
pub open spec fn u16_le(x: u16) -> Seq<u8> {
    seq![(x % 0x100) as u8, (x / 0x100) as u8]
}

/// The integer whose little-endian bytes are the first two of `bytes`.
pub open spec fn le_u16(bytes: Seq<u8>) -> u16
    recommends
        bytes.len() >= 2,
{
    (bytes[0] + bytes[1] * 0x100) as u16
}

/// The four bytes of `x`, least significant first.
pub open spec fn u32_le(x: u32) -> Seq<u8> {
    seq![
        (x % 0x100) as u8,
        (x / 0x100 % 0x100) as u8,
        (x / 0x1_0000 % 0x100) as u8,
        (x / 0x100_0000) as u8,
    ]
}

/// The integer whose little-endian bytes are the first four of `bytes`.
pub open spec fn le_u32(bytes: Seq<u8>) -> u32
    recommends
        bytes.len() >= 4,
{
    (bytes[0] + bytes[1] * 0x100 + bytes[2] * 0x1_0000 + bytes[3] * 0x100_0000) as u32
}

/// The eight bytes of `x`, least significant first.
pub open spec fn u64_le(x: u64) -> Seq<u8> {
    u32_le((x % 0x1_0000_0000) as u32) + u32_le((x / 0x1_0000_0000) as u32)
}

/// The integer whose little-endian bytes are the first eight of `bytes`.
pub open spec fn le_u64(bytes: Seq<u8>) -> u64
    recommends
        bytes.len() >= 8,
{
    (le_u32(bytes) + le_u32(bytes.skip(4)) * 0x1_0000_0000) as u64
}

/// Reading back what was written gives the same integer.
pub proof fn lemma_u16_round_trip(x: u16)
    ensures
        u16_le(x).len() == 2,
        le_u16(u16_le(x)) == x,
{
}

/// Reading back what was written gives the same integer.
pub proof fn lemma_u32_round_trip(x: u32)
    ensures
        u32_le(x).len() == 4,
        le_u32(u32_le(x)) == x,
{
}

/// Reading back what was written gives the same integer.
pub proof fn lemma_u64_round_trip(x: u64)
    ensures
        u64_le(x).len() == 8,
        le_u64(u64_le(x)) == x,
{
    let low = (x % 0x1_0000_0000) as u32;
    let high = (x / 0x1_0000_0000) as u32;
    lemma_u32_round_trip(low);
    lemma_u32_round_trip(high);
}

/// The two bytes of `x`, least significant first.
pub fn u16_to_le(x: u16) -> (r: Vec<u8>)
    ensures
        r@ == u16_le(x),
{
    let r = vec![(x % 0x100) as u8, (x / 0x100) as u8];
    r
}

/// The integer that the two bytes of `bytes` from `at` on hold.
pub fn u16_from_le(bytes: &[u8], at: usize) -> (r: u16)
    requires
        at + 2 <= bytes.len(),
    ensures
        r == le_u16(bytes@.skip(at as int)),
{
    let b0 = bytes[at] as u16;
    let b1 = bytes[at + 1] as u16;
    b0 + b1 * 0x100
}

/// The four bytes of `x`, least significant first.
pub fn u32_to_le(x: u32) -> (r: Vec<u8>)
    ensures
        r@ == u32_le(x),
{
    let r = vec![
        (x % 0x100) as u8,
        (x / 0x100 % 0x100) as u8,
        (x / 0x1_0000 % 0x100) as u8,
        (x / 0x100_0000) as u8,
    ];
    r
}

/// The eight bytes of `x`, least significant first.
pub fn u64_to_le(x: u64) -> (r: Vec<u8>)
    ensures
        r@ == u64_le(x),
{
    let mut r = u32_to_le((x % 0x1_0000_0000) as u32);
    let mut high = u32_to_le((x / 0x1_0000_0000) as u32);
    r.append(&mut high);
    r
}

/// The integer that the four bytes of `bytes` from `at` on hold.
pub fn u32_from_le(bytes: &[u8], at: usize) -> (r: u32)
    requires
        at + 4 <= bytes.len(),
    ensures
        r == le_u32(bytes@.skip(at as int)),
{
    let b0 = bytes[at] as u32;
    let b1 = bytes[at + 1] as u32;
    let b2 = bytes[at + 2] as u32;
    let b3 = bytes[at + 3] as u32;
    b0 + b1 * 0x100 + b2 * 0x1_0000 + b3 * 0x100_0000
}

/// The integer that the eight bytes of `bytes` from `at` on hold.
pub fn u64_from_le(bytes: &[u8], at: usize) -> (r: u64)
    requires
        at + 8 <= bytes.len(),
    ensures
        r == le_u64(bytes@.skip(at as int)),
{
    let low = u32_from_le(bytes, at) as u64;
    let high = u32_from_le(bytes, at + 4) as u64;
    low + high * 0x1_0000_0000
}

} // verus!
