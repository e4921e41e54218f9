//! Big-endian packing and unpacking of bytes.

use vstd::prelude::*;

verus! {

/// The 16-bit value whose big-endian bytes are `a`, `b`.
pub open spec fn be16(a: u8, b: u8) -> int {
    a as int * 256 + b as int
}

/// The 32-bit value whose big-endian bytes are `a`, `b`, `c`, `d`.
pub open spec fn be32(a: u8, b: u8, c: u8, d: u8) -> int {
    a as int * 16777216 + b as int * 65536 + c as int * 256 + d as int
}

/// Joins two bytes, most significant first.
pub fn u8_to_u16(a: u8, b: u8) -> (r: u16)
    ensures
        r as int == be16(a, b),
{
    let r: u16 = (a as u16) << 8 | b as u16;
    assert(((a as u16) << 8 | b as u16) == a as u16 * 256 + b as u16) by (bit_vector);
    r
}

/// Joins four bytes, most significant first.
pub fn u8_to_u32(a: u8, b: u8, c: u8, d: u8) -> (r: u32)
    ensures
        r as int == be32(a, b, c, d),
{
    let r: u32 = (a as u32) << 24 | (b as u32) << 16 | (c as u32) << 8 | d as u32;
    assert(((a as u32) << 24 | (b as u32) << 16 | (c as u32) << 8 | d as u32) == a as u32
        * 16777216 + b as u32 * 65536 + c as u32 * 256 + d as u32) by (bit_vector);
    r
}

/// Splits a 32-bit value into its four bytes, most significant first.
pub fn u32_to_u8(a: u32) -> (r: (u8, u8, u8, u8))
    ensures
        be32(r.0, r.1, r.2, r.3) == a as int,
        r.0 as int == a as int / 16777216,
        r.1 as int == (a as int / 65536) % 256,
        r.2 as int == (a as int / 256) % 256,
        r.3 as int == a as int % 256,
{
    assert(((a >> 24) & 0xFF) == a / 16777216) by (bit_vector);
    assert(((a >> 16) & 0xFF) == (a / 65536) % 256) by (bit_vector);
    assert(((a >> 8) & 0xFF) == (a / 256) % 256) by (bit_vector);
    assert((a & 0xFF) == a % 256) by (bit_vector);
    (
        ((a >> 24) & 0xFF) as u8,
        ((a >> 16) & 0xFF) as u8,
        ((a >> 8) & 0xFF) as u8,
        (a & 0xFF) as u8,
    )
}

} // verus!
