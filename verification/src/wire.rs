//! Reading multi-byte integers out of wire bytes: little-endian for the
//! netfilter-log header, big-endian (network order) for IPv4/TCP/UDP fields.

use vstd::prelude::*;

verus! {

/// A 16-bit value stored little-endian as bytes `lo`, `hi`.
pub open spec fn le16(lo: u8, hi: u8) -> u16 {
    (lo as u16 + hi as u16 * 256) as u16
}

/// A 16-bit value stored big-endian (network order) as bytes `hi`, `lo`.
pub open spec fn be16(hi: u8, lo: u8) -> u16 {
    (hi as u16 * 256 + lo as u16) as u16
}

/// A 32-bit value stored big-endian (network order).
pub open spec fn be32(b0: u8, b1: u8, b2: u8, b3: u8) -> u32 {
    (b0 as u32 * 0x1000000 + b1 as u32 * 0x10000 + b2 as u32 * 0x100 + b3 as u32) as u32
}

pub fn read_le16(lo: u8, hi: u8) -> (r: u16)
    ensures
        r == le16(lo, hi),
{
    lo as u16 + hi as u16 * 256
}

pub fn read_be16(hi: u8, lo: u8) -> (r: u16)
    ensures
        r == be16(hi, lo),
{
    hi as u16 * 256 + lo as u16
}

pub fn read_be32(b0: u8, b1: u8, b2: u8, b3: u8) -> (r: u32)
    ensures
        r == be32(b0, b1, b2, b3),
{
    b0 as u32 * 0x1000000 + b1 as u32 * 0x10000 + b2 as u32 * 0x100 + b3 as u32
}

/// The two little-endian bytes of a 16-bit value: `le16` is their inverse.
pub open spec fn le16_lo(x: u16) -> u8 {
    (x % 256) as u8
}

pub open spec fn le16_hi(x: u16) -> u8 {
    (x / 256) as u8
}

pub proof fn lemma_le16_of_bytes(x: u16)
    ensures
        le16(le16_lo(x), le16_hi(x)) == x,
{
}

pub fn split_le16(x: u16) -> (r: (u8, u8))
    ensures
        r.0 == le16_lo(x),
        r.1 == le16_hi(x),
        le16(r.0, r.1) == x,
{
    ((x % 256) as u8, (x / 256) as u8)
}

} // verus!
