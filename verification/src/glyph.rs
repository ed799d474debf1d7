//! A glyph handed out by codepoint lookup over flat packed font blobs,
//! with its own drawing helpers. The blobs use the same record format as
//! the [`crate::unifont`] tables.
use vstd::prelude::*;

use crate::bitmap::Bitmap;
use crate::bits::read_le_u32;
use crate::draw::render_blocks;
use crate::draw::render_simple;
use crate::unifont::font_contains;
use crate::unifont::font_wf;
use crate::unifont::glyph_bytes;
use crate::unifont::lemma_glyph_index_is;
use crate::unifont::lemma_record_in_bounds;
use crate::unifont::lemma_table_len;
use crate::unifont::num_records;
use crate::unifont::rec_key;
use crate::unifont::rec_size;

verus! {

/// Representation of a glyph, either single-width (8x16) or double-width
/// (16x16).
pub struct Glyph(pub Vec<u8>);

impl Glyph {
    /// A glyph's bitmap takes 16 bytes (8x16 pixels) or 32 bytes (16x16).
    pub open spec fn wf(&self) -> bool {
        self.0@.len() == 16 || self.0@.len() == 32
    }

    /// Create a new `Glyph` from the raw bitmap data.
    pub fn new(bitmap: Vec<u8>) -> (g: Glyph)
        ensures
            g.0@ == bitmap@,
    {
        Glyph(bitmap)
    }

    /// Search for a glyph with a given codepoint, in the single-width
    /// font first, then the double-width font.
    ///
    /// Returns the glyph holding the bitmap data for the given
    /// codepoint, or `None` if the codepoint exists in neither font. For
    /// single-width glyphs the data is 16 bytes long; for double-width
    /// glyphs, 32 bytes.
    pub fn from_codepoint(codepoint: u32, single: &[u8], double: &[u8]) -> (r: Option<Glyph>)
        requires
            font_wf(single@, 16),
            font_wf(double@, 32),
        ensures
            match r {
                Some(g) => {
                    &&& g.wf()
                    &&& if font_contains(single@, 16, codepoint as int) {
                        g.0@ == glyph_bytes(single@, 16, codepoint as int)
                    } else {
                        &&& font_contains(double@, 32, codepoint as int)
                        &&& g.0@ == glyph_bytes(double@, 32, codepoint as int)
                    }
                },
                None => {
                    &&& !font_contains(single@, 16, codepoint as int)
                    &&& !font_contains(double@, 32, codepoint as int)
                },
            },
    {
        match search_glyph_recursive(codepoint, single, 16) {
            Some(b) => Some(Glyph::new(vstd::slice::slice_to_vec(b))),
            None => match search_glyph_recursive(codepoint, double, 32) {
                Some(b) => Some(Glyph::new(vstd::slice::slice_to_vec(b))),
                None => None,
            },
        }
    }

    /// Get the width of the glyph in cells: 1 for an 8x16 glyph, 2 for a
    /// 16x16 one. This is also the number of bytes one pixel row takes.
    pub fn width(&self) -> (w: usize)
        requires
            self.wf(),
        ensures
            w == self.0@.len() / 16,
    {
        if self.0.len() == 16 {
            1
        } else {
            2
        }
    }

    /// Draw the glyph using the given strings for zero and one bits.
    pub fn draw_ascii(&self, zero: &str, one: &str) -> (res: String)
        requires
            self.wf(),
        ensures
            res@ == render_simple(self.0@, self.0@.len() as int / 16, zero@, one@),
    {
        let bm = Bitmap::from_raw_data(vstd::slice::slice_to_vec(self.0.as_slice()));
        crate::draw::draw_simple(bm, zero, one)
    }

    /// Draw the glyph using Unicode block elements. (▀, ▄, █)
    pub fn draw_blocks(&self) -> (res: String)
        requires
            self.wf(),
        ensures
            res@ == render_blocks(self.0@, self.0@.len() as int / 16),
    {
        let bm = Bitmap::from_raw_data(vstd::slice::slice_to_vec(self.0.as_slice()));
        crate::draw::draw_blocks(bm)
    }
}

/// Recursive binary search for a glyph in a flat packed font blob.
///
/// Returns the raw bitmap bytes of the record whose codepoint field is
/// `codepoint`, or `None` when the font has no such record.
pub fn search_glyph_recursive<'a>(codepoint: u32, font: &'a [u8], glyph_size: usize) -> (r: Option<
    &'a [u8],
>)
    requires
        font_wf(font@, glyph_size as int),
    ensures
        match r {
            Some(b) => {
                &&& font_contains(font@, glyph_size as int, codepoint as int)
                &&& b@ == glyph_bytes(font@, glyph_size as int, codepoint as int)
                &&& b@.len() == glyph_size
            },
            None => !font_contains(font@, glyph_size as int, codepoint as int),
        },
{
    proof {
        lemma_table_len(font@, glyph_size as int);
    }
    let rs = 4 + glyph_size;
    let n = font.len() / rs;
    if n == 0 {
        return None;
    }
    search_glyph_range(codepoint, font, glyph_size, 0, n)
}

/// One step of the search, narrowed to the records in `[lo, hi)`.
fn search_glyph_range<'a>(
    codepoint: u32,
    font: &'a [u8],
    glyph_size: usize,
    lo: usize,
    hi: usize,
) -> (r: Option<&'a [u8]>)
    requires
        font_wf(font@, glyph_size as int),
        font@.len() == num_records(font@, glyph_size as int) * rec_size(glyph_size as int),
        font@.len() <= usize::MAX,
        lo < hi <= num_records(font@, glyph_size as int),
    ensures
        match r {
            Some(b) => {
                &&& font_contains(font@, glyph_size as int, codepoint as int)
                &&& b@ == glyph_bytes(font@, glyph_size as int, codepoint as int)
                &&& b@.len() == glyph_size
            },
            None => forall|i: int|
                lo <= i < hi ==> rec_key(font@, glyph_size as int, i) != codepoint,
        },
    decreases hi - lo,
{
    let ghost gs = glyph_size as int;
    let total = hi - lo;
    let mid = lo + total / 2;
    proof {
        lemma_record_in_bounds(font@, gs, mid as int);
    }
    let rs = 4 + glyph_size;
    let code = read_le_u32(font, mid * rs);
    proof {
        assert(rec_key(font@, gs, mid as int) == code);
    }
    if total == 1 && code != codepoint {
        None
    } else if code < codepoint {
        search_glyph_range(codepoint, font, glyph_size, mid, hi)
    } else if code > codepoint {
        search_glyph_range(codepoint, font, glyph_size, lo, mid)
    } else {
        proof {
            lemma_glyph_index_is(font@, gs, codepoint as int, mid as int);
            assert((mid as int + 1) * rec_size(gs) == mid as int * rec_size(gs) + rec_size(gs))
                by (nonlinear_arith);
        }
        Some(&font[mid * rs + 4..mid * rs + 4 + glyph_size])
    }
}

} // verus!
