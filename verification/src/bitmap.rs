//! A decoded two-dimensional pixel grid, built from a glyph record's raw
//! bitmap bytes: row-major, one bit per pixel, most significant bit first
//! within each byte, 16 rows tall and 8 or 16 columns wide.
use vstd::prelude::*;

use crate::bits::bit_at;

verus! {

/// The value (0 or 1) of the pixel at column `x`, row `y` of a bitmap
/// whose rows are `wb` bytes wide: bit `7 - (x % 8)` of the byte at
/// index `y * wb + x / 8`.
pub open spec fn pixel_val(bits: Seq<u8>, wb: int, x: int, y: int) -> u8 {
    bit_at(bits[y * wb + x / 8], (7 - (x % 8)) as u8)
}

/// Whether the pixel at column `x`, row `y` is set.
pub open spec fn pixel_set(bits: Seq<u8>, wb: int, x: int, y: int) -> bool {
    pixel_val(bits, wb, x, y) == 1
}

/// Representation of two-dimensional bitmap data.
pub struct Bitmap {
    pub width: usize,
    pub height: usize,
    pub bits: Vec<u8>,
}

impl View for Bitmap {
    type V = Seq<u8>;

    open spec fn view(&self) -> Seq<u8> {
        self.bits@
    }
}

impl Bitmap {
    /// A bitmap is well formed when it came from a 16- or 32-byte glyph
    /// record: 16 rows, and one pixel column per bit of half the record.
    pub open spec fn wf(&self) -> bool {
        &&& self@.len() == 16 || self@.len() == 32
        &&& self.height == 16
        &&& self.width == self@.len() / 2
    }

    /// Width of one pixel row in bytes.
    pub open spec fn row_bytes(&self) -> int {
        self.width as int / 8
    }

    /// Create a new [`Bitmap`] from raw byte data.
    pub fn from_raw_data(bits: Vec<u8>) -> (bm: Bitmap)
        requires
            bits@.len() == 16 || bits@.len() == 32,
        ensures
            bm.wf(),
            bm@ == bits@,
            bm.width == bits@.len() / 2,
            bm.height == 16,
    {
        let width = bits.len() / 2;
        let height: usize = 16;
        Bitmap { width, height, bits }
    }

    /// Get the bit at the specified (x, y) coordinate.
    pub fn get_pixel(&self, x: usize, y: usize) -> (r: u8)
        requires
            self.wf(),
            x < self.width,
            y < self.height,
        ensures
            r == pixel_val(self@, self.row_bytes(), x as int, y as int),
            r == 0 || r == 1,
    {
        let idx = y * (self.width / 8) + (x / 8);
        let bit = (7 - (x % 8)) as u8;
        let byte = self.bits[idx];
        let r = (byte >> bit) & 1;
        proof {
            assert(r == 0 || r == 1) by (bit_vector)
                requires r == (byte >> bit) & 1;
        }
        r
    }
}

/// Round trip: the pixel at `(x, y)` of a bitmap built from raw bytes
/// reconstructs exactly bit `7 - (x % 8)` of the byte at index
/// `y * (width / 8) + (x / 8)` of those bytes.
pub proof fn lemma_pixel_round_trip(bytes: Seq<u8>, bm: Bitmap, x: int, y: int)
    requires
        bm.wf(),
        bm@ == bytes,
        0 <= x < bm.width,
        0 <= y < bm.height,
    ensures
        pixel_val(bm@, bm.row_bytes(), x, y) == bit_at(
            bytes[y * (bm.width as int / 8) + x / 8],
            (7 - (x % 8)) as u8,
        ),
{
}

} // verus!
