//! Little-endian integers in byte strings.

use vstd::prelude::*;

verus! {

/// The 16-bit integer in the two bytes at `p`.
pub open spec fn le_u16(s: Seq<u8>, p: int) -> u16 {
    (s[p] + 0x100 * s[p + 1]) as u16
}

/// The 32-bit integer in the four bytes at `p`.
pub open spec fn le_u32(s: Seq<u8>, p: int) -> u32 {
    (s[p] + 0x100 * s[p + 1] + 0x1_0000 * s[p + 2] + 0x100_0000 * s[p + 3]) as u32
}

/// The 64-bit integer in the eight bytes at `p`.
pub open spec fn le_u64(s: Seq<u8>, p: int) -> u64 {
    (le_u32(s, p) + 0x1_0000_0000 * le_u32(s, p + 4)) as u64
}

/// The two bytes of a 16-bit integer.
pub open spec fn u16_bytes(v: u16) -> Seq<u8> {
    seq![(v % 0x100) as u8, (v / 0x100) as u8]
}

/// The four bytes of a 32-bit integer.
pub open spec fn u32_bytes(v: u32) -> Seq<u8> {
    seq![
        (v % 0x100) as u8,
        ((v / 0x100) % 0x100) as u8,
        ((v / 0x1_0000) % 0x100) as u8,
        (v / 0x100_0000) as u8,
    ]
}

/// The eight bytes of a 64-bit integer.
pub open spec fn u64_bytes(v: u64) -> Seq<u8> {
    u32_bytes((v % 0x1_0000_0000) as u32) + u32_bytes((v / 0x1_0000_0000) as u32)
}

/// Reading the two bytes of a 16-bit integer gives it back.
pub proof fn u16_round_trip(v: u16)
    ensures
        le_u16(u16_bytes(v), 0) == v,
{
}

/// Reading the four bytes of a 32-bit integer gives it back.
pub proof fn u32_round_trip(v: u32)
    ensures
        le_u32(u32_bytes(v), 0) == v,
{
}

/// Reading the eight bytes of a 64-bit integer gives it back.
pub proof fn u64_round_trip(v: u64)
    ensures
        le_u64(u64_bytes(v), 0) == v,
{
    let lo = (v % 0x1_0000_0000) as u32;
    let hi = (v / 0x1_0000_0000) as u32;
    let s = u64_bytes(v);
    u32_round_trip(lo);
    u32_round_trip(hi);
    assert(le_u32(s, 0) == le_u32(u32_bytes(lo), 0));
    assert(le_u32(s, 4) == le_u32(u32_bytes(hi), 0));
}

/// Reads the 16-bit integer at `p`.
pub fn read_u16(bytes: &[u8], p: usize) -> (r: u16)
    requires
        p + 2 <= bytes@.len(),
    ensures
        r == le_u16(bytes@, p as int),
{
    bytes[p] as u16 + 0x100 * (bytes[p + 1] as u16)
}

/// Reads the 32-bit integer at `p`.
pub fn read_u32(bytes: &[u8], p: usize) -> (r: u32)
    requires
        p + 4 <= bytes@.len(),
    ensures
        r == le_u32(bytes@, p as int),
{
    bytes[p] as u32 + 0x100 * (bytes[p + 1] as u32) + 0x1_0000 * (bytes[p + 2] as u32) + 0x100_0000 * (bytes[p
        + 3] as u32)
}

/// Reads the 64-bit integer at `p`.
pub fn read_u64(bytes: &[u8], p: usize) -> (r: u64)
    requires
        p + 8 <= bytes@.len(),
    ensures
        r == le_u64(bytes@, p as int),
{
    assert(bytes@.len() == bytes.len());
    let lo: u32 = read_u32(bytes, p);
    let hi: u32 = read_u32(bytes, p + 4);
    lo as u64 + 0x1_0000_0000 * (hi as u64)
}

} // verus!
