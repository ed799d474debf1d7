//! The packed glyph tables: sorted fixed-size records of `4 + K` bytes,
//! the first 4 being the codepoint (little-endian) and the rest being the
//! bitmap data, with `K` 16 for single-width and 32 for double-width
//! glyphs. Records are sorted strictly by codepoint, so lookup is a
//! binary search.
use vstd::prelude::*;

use crate::bits::le_u32_at;
use crate::bits::read_le_u32;

verus! {

/// Size in bytes of one record of a table whose bitmaps take `gsize` bytes.
pub open spec fn rec_size(gsize: int) -> int {
    4 + gsize
}

/// Number of whole records in `data`.
pub open spec fn num_records(data: Seq<u8>, gsize: int) -> int {
    data.len() as int / rec_size(gsize)
}

/// The codepoint field of record `i`.
pub open spec fn rec_key(data: Seq<u8>, gsize: int, i: int) -> int {
    le_u32_at(data, i * rec_size(gsize))
}

/// The raw bitmap bytes of record `i`.
pub open spec fn rec_bitmap(data: Seq<u8>, gsize: int, i: int) -> Seq<u8> {
    data.subrange(i * rec_size(gsize) + 4, (i + 1) * rec_size(gsize))
}

/// A well-formed glyph table: a bitmap size of 16 or 32 bytes, a length
/// that is an exact multiple of the record size, and record codepoints
/// strictly increasing (so no duplicates).
pub open spec fn font_wf(data: Seq<u8>, gsize: int) -> bool {
    &&& gsize == 16 || gsize == 32
    &&& data.len() as int % rec_size(gsize) == 0
    &&& forall|i: int, j: int|
        0 <= i < j < num_records(data, gsize) ==> rec_key(data, gsize, i) < rec_key(data, gsize, j)
}

/// Whether some record of the table carries codepoint `cp`.
pub open spec fn font_contains(data: Seq<u8>, gsize: int, cp: int) -> bool {
    exists|i: int| 0 <= i < num_records(data, gsize) && rec_key(data, gsize, i) == cp
}

/// The index of the record carrying codepoint `cp` (unique in a
/// well-formed table).
pub open spec fn glyph_index(data: Seq<u8>, gsize: int, cp: int) -> int {
    choose|i: int| 0 <= i < num_records(data, gsize) && rec_key(data, gsize, i) == cp
}

/// The raw bitmap bytes of the record carrying codepoint `cp`.
pub open spec fn glyph_bytes(data: Seq<u8>, gsize: int, cp: int) -> Seq<u8> {
    rec_bitmap(data, gsize, glyph_index(data, gsize, cp))
}

/// In a well-formed table the record with a given codepoint is unique,
/// so a record found at `i` is the record that [`glyph_index`] names.
pub proof fn lemma_glyph_index_is(data: Seq<u8>, gsize: int, cp: int, i: int)
    requires
        font_wf(data, gsize),
        0 <= i < num_records(data, gsize),
        rec_key(data, gsize, i) == cp,
    ensures
        font_contains(data, gsize, cp),
        glyph_index(data, gsize, cp) == i,
{
    assert(font_contains(data, gsize, cp));
    let j = glyph_index(data, gsize, cp);
    if j < i {
        assert(rec_key(data, gsize, j) < rec_key(data, gsize, i));
    } else if j > i {
        assert(rec_key(data, gsize, i) < rec_key(data, gsize, j));
    }
}

/// A table's length is exactly the number of its records times the
/// record size.
pub proof fn lemma_table_len(data: Seq<u8>, gsize: int)
    requires
        gsize == 16 || gsize == 32,
        data.len() as int % rec_size(gsize) == 0,
    ensures
        data.len() == num_records(data, gsize) * rec_size(gsize),
{
    let rs = rec_size(gsize);
    assert(data.len() == (data.len() as int / rs) * rs + data.len() as int % rs) by (nonlinear_arith)
        requires rs > 0;
}

/// Every record of a well-formed table lies inside the table.
pub proof fn lemma_record_in_bounds(data: Seq<u8>, gsize: int, i: int)
    requires
        gsize == 16 || gsize == 32,
        data.len() as int % rec_size(gsize) == 0,
        0 <= i < num_records(data, gsize),
    ensures
        0 <= i * rec_size(gsize),
        i * rec_size(gsize) + rec_size(gsize) <= data.len(),
{
    let rs = rec_size(gsize);
    let n = num_records(data, gsize);
    lemma_table_len(data, gsize);
    assert(0 <= i * rs && i * rs + rs <= n * rs) by (nonlinear_arith)
        requires 0 <= i < n, rs > 0;
}

/// An immutable, sorted, fixed-record-size binary table mapping
/// codepoint to bitmap, for one bitmap size.
pub struct GlyphStore {
    pub data: Vec<u8>,
    pub glyph_size: usize,
}

impl GlyphStore {
    /// The table invariant, established once at construction.
    pub open spec fn wf(&self) -> bool {
        font_wf(self.data@, self.glyph_size as int)
    }

    /// Whether the table has a record for codepoint `cp`.
    pub open spec fn contains(&self, cp: int) -> bool {
        font_contains(self.data@, self.glyph_size as int, cp)
    }

    /// The raw bitmap bytes stored for codepoint `cp`.
    pub open spec fn glyph(&self, cp: int) -> Seq<u8> {
        glyph_bytes(self.data@, self.glyph_size as int, cp)
    }

    /// Build a table from a packed byte blob, validating the format:
    /// the bitmap size must be 16 or 32, the length an exact multiple of
    /// the record size, and the codepoints strictly increasing. Returns
    /// `None` exactly when the blob breaks one of those rules.
    pub fn new(data: Vec<u8>, glyph_size: usize) -> (r: Option<GlyphStore>)
        ensures
            match r {
                Some(s) => {
                    &&& s.wf()
                    &&& s.data@ == data@
                    &&& s.glyph_size == glyph_size
                },
                None => !font_wf(data@, glyph_size as int),
            },
    {
        let ghost gs = glyph_size as int;
        if !(glyph_size == 16 || glyph_size == 32) {
            return None;
        }
        let rs = 4 + glyph_size;
        if data.len() % rs != 0 {
            return None;
        }
        let n = data.len() / rs;
        proof {
            lemma_table_len(data@, gs);
        }
        let mut i: usize = 1;
        while i < n
            invariant
                glyph_size == 16 || glyph_size == 32,
                rs == rec_size(gs),
                gs == glyph_size as int,
                data@.len() as int % rec_size(gs) == 0,
                data@.len() == num_records(data@, gs) * rec_size(gs),
                data@.len() <= usize::MAX,
                n == num_records(data@, gs),
                1 <= i,
                forall|k: int|
                    1 <= k < i ==> rec_key(data@, gs, k - 1) < #[trigger] rec_key(data@, gs, k),
            decreases n - i,
        {
            proof {
                lemma_record_in_bounds(data@, gs, i as int);
                lemma_record_in_bounds(data@, gs, i as int - 1);
            }
            let prev = read_le_u32(data.as_slice(), (i - 1) * rs);
            let cur = read_le_u32(data.as_slice(), i * rs);
            if prev >= cur {
                proof {
                    assert(rec_key(data@, gs, i as int - 1) == prev);
                    assert(rec_key(data@, gs, i as int) == cur);
                }
                return None;
            }
            i += 1;
        }
        proof {
            assert forall|p: int, q: int|
                0 <= p < q < num_records(data@, gs) implies rec_key(data@, gs, p) < rec_key(
                data@,
                gs,
                q,
            ) by {
                lemma_adjacent_sorted_implies_sorted(data@, gs, p, q);
            }
        }
        Some(GlyphStore { data, glyph_size })
    }
}

/// Pairwise-adjacent strictly increasing codepoints make the whole table
/// strictly sorted.
proof fn lemma_adjacent_sorted_implies_sorted(data: Seq<u8>, gsize: int, i: int, j: int)
    requires
        forall|k: int|
            1 <= k < num_records(data, gsize) ==> rec_key(data, gsize, k - 1) < #[trigger] rec_key(
                data,
                gsize,
                k,
            ),
        0 <= i < j < num_records(data, gsize),
    ensures
        rec_key(data, gsize, i) < rec_key(data, gsize, j),
    decreases j - i,
{
    if i + 1 < j {
        lemma_adjacent_sorted_implies_sorted(data, gsize, i, j - 1);
    }
}

/// Binary search for the record with codepoint `codepoint` in one table.
pub fn find_entry_internal(codepoint: u32, store: &GlyphStore) -> (r: Option<Vec<u8>>)
    requires
        store.wf(),
    ensures
        match r {
            Some(bm) => {
                &&& store.contains(codepoint as int)
                &&& bm@ == store.glyph(codepoint as int)
                &&& bm@.len() == store.glyph_size
            },
            None => !store.contains(codepoint as int),
        },
{
    let ghost gs = store.glyph_size as int;
    let rs = 4 + store.glyph_size;
    let n = store.data.len() / rs;
    proof {
        lemma_table_len(store.data@, gs);
    }
    let mut lo: usize = 0;
    let mut hi: usize = n;
    while lo < hi
        invariant
            store.wf(),
            gs == store.glyph_size as int,
            rs == rec_size(gs),
            n == num_records(store.data@, gs),
            store.data@.len() == n * rec_size(gs),
            store.data@.len() <= usize::MAX,
            lo <= hi <= n,
            forall|i: int| 0 <= i < lo ==> rec_key(store.data@, gs, i) < codepoint,
            forall|i: int| hi <= i < n ==> rec_key(store.data@, gs, i) > codepoint,
        decreases hi - lo,
    {
        let mid = lo + (hi - lo) / 2;
        proof {
            lemma_record_in_bounds(store.data@, gs, mid as int);
        }
        let key = read_le_u32(store.data.as_slice(), mid * rs);
        if key < codepoint {
            proof {
                assert(rec_key(store.data@, gs, mid as int) == key);
            }
            lo = mid + 1;
        } else if key > codepoint {
            proof {
                assert(rec_key(store.data@, gs, mid as int) == key);
            }
            hi = mid;
        } else {
            proof {
                assert(rec_key(store.data@, gs, mid as int) == codepoint);
                lemma_glyph_index_is(store.data@, gs, codepoint as int, mid as int);
                assert((mid as int + 1) * rec_size(gs) == mid as int * rec_size(gs) + rec_size(gs))
                    by (nonlinear_arith);
            }
            let start = mid * rs + 4;
            let bytes: &[u8] = store.data.as_slice();
            let bm = vstd::slice::slice_to_vec(&bytes[start..start + store.glyph_size]);
            return Some(bm);
        }
    }
    None
}


/// A stored glyph's bitmap is as long as its table's bitmap size.
pub proof fn lemma_glyph_len(data: Seq<u8>, gsize: int, cp: int)
    requires
        font_wf(data, gsize),
        font_contains(data, gsize, cp),
    ensures
        glyph_bytes(data, gsize, cp).len() == gsize,
{
    let i = glyph_index(data, gsize, cp);
    assert(0 <= i < num_records(data, gsize) && rec_key(data, gsize, i) == cp);
    lemma_record_in_bounds(data, gsize, i);
    assert((i + 1) * rec_size(gsize) == i * rec_size(gsize) + rec_size(gsize)) by (nonlinear_arith);
}

/// A codepoint lying strictly between the codepoints of two consecutive
/// records is absent from the table, so a lookup of it misses.
pub proof fn lemma_between_entries_absent(data: Seq<u8>, gsize: int, i: int, cp: int)
    requires
        font_wf(data, gsize),
        0 <= i,
        i + 1 < num_records(data, gsize),
        rec_key(data, gsize, i) < cp < rec_key(data, gsize, i + 1),
    ensures
        !font_contains(data, gsize, cp),
{
    if font_contains(data, gsize, cp) {
        let j = glyph_index(data, gsize, cp);
        assert(0 <= j < num_records(data, gsize) && rec_key(data, gsize, j) == cp);
        if j < i {
            assert(rec_key(data, gsize, j) < rec_key(data, gsize, i));
        } else if j > i + 1 {
            assert(rec_key(data, gsize, i + 1) < rec_key(data, gsize, j));
        }
    }
}

/// A pair of glyph tables, one for each glyph width, consulted in a
/// fixed priority order: single-width first, then double-width.
pub struct Font {
    pub single: GlyphStore,
    pub double: GlyphStore,
}

impl Font {
    /// Both tables well formed, with their fixed bitmap sizes.
    pub open spec fn wf(&self) -> bool {
        &&& self.single.wf()
        &&& self.double.wf()
        &&& self.single.glyph_size == 16
        &&& self.double.glyph_size == 32
    }

    /// Whether either table has a record for codepoint `cp`.
    pub open spec fn contains(&self, cp: int) -> bool {
        self.single.contains(cp) || self.double.contains(cp)
    }

    /// The raw bitmap bytes a lookup of `cp` yields: the single-width
    /// table takes priority.
    pub open spec fn glyph(&self, cp: int) -> Seq<u8> {
        if self.single.contains(cp) {
            self.single.glyph(cp)
        } else {
            self.double.glyph(cp)
        }
    }
}

/// Search for a glyph entry by its codepoint, in the single-width table
/// first and the double-width table second.
///
/// Returns the raw bitmap bytes (16 or 32 of them), or `None` if the
/// codepoint exists in neither table.
pub fn find_entry(font: &Font, codepoint: u32) -> (r: Option<Vec<u8>>)
    requires
        font.wf(),
    ensures
        match r {
            Some(bm) => {
                &&& font.contains(codepoint as int)
                &&& bm@ == font.glyph(codepoint as int)
                &&& bm@.len() == 16 || bm@.len() == 32
            },
            None => !font.contains(codepoint as int),
        },
{
    let single = find_entry_internal(codepoint, &font.single);
    match single {
        Some(bm) => Some(bm),
        None => find_entry_internal(codepoint, &font.double),
    }
}

} // verus!
