//! Byte-level helpers: little-endian decoding of the codepoint field of a
//! glyph record, and access to single bits inside a bitmap byte.
use vstd::prelude::*;

verus! {

/// The unsigned value of four bytes read in little-endian order.
///
/// The glyph table format stores each record's codepoint this way; the
/// byte order is fixed to little-endian so that the tables are portable.
pub open spec fn le_u32(b0: u8, b1: u8, b2: u8, b3: u8) -> int {
    b0 + 256 * b1 + 65536 * b2 + 16777216 * b3
}

/// The little-endian value of the four bytes of `data` starting at `off`.
pub open spec fn le_u32_at(data: Seq<u8>, off: int) -> int {
    le_u32(data[off], data[off + 1], data[off + 2], data[off + 3])
}

/// Read a codepoint field: four little-endian bytes starting at `off`.
pub fn read_le_u32(data: &[u8], off: usize) -> (r: u32)
    requires
        off + 4 <= data@.len(),
    ensures
        r == le_u32_at(data@, off as int),
{
    let b0 = data[off] as u32;
    let b1 = data[off + 1] as u32;
    let b2 = data[off + 2] as u32;
    let b3 = data[off + 3] as u32;
    b0 + 256 * b1 + 65536 * b2 + 16777216 * b3
}

/// Bit `i` of byte `b`, counting from the least significant bit.
pub open spec fn bit_at(b: u8, i: u8) -> u8 {
    (b >> i) & 1
}

} // verus!
