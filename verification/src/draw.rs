//! Rendering of a bitmap as character-cell text: one of four strategies
//! turns the pixel grid into lines joined by single newlines, with no
//! trailing newline.
use vstd::prelude::*;

use crate::bitmap::Bitmap;
use crate::bitmap::pixel_set;

verus! {

/// How a glyph bitmap is turned into text.
pub enum DrawingMode {
    /// Use space for bg and the given character for fg.
    ///
    /// This is the only mode that does not draw proportionally on terminals.
    Simple(char),
    /// Use space for bg and the given character for fg (wide).
    Wide(char),
    /// Use Unicode block elements (' ', '▀', '▄', '█').
    Blocks,
    /// Use Unicode full block for fg and space for bg (wide).
    WideBlocks,
}

/// The characters that the pixel at column `x`, row `y` contributes to
/// its output row: `one` for a set pixel, `zero` for a clear one.
pub open spec fn cell_chars(
    bits: Seq<u8>,
    wb: int,
    x: int,
    y: int,
    zero: Seq<char>,
    one: Seq<char>,
) -> Seq<char> {
    if pixel_set(bits, wb, x, y) {
        one
    } else {
        zero
    }
}

/// The first `x` cells of output row `y`.
pub open spec fn row_prefix(
    bits: Seq<u8>,
    wb: int,
    x: int,
    y: int,
    zero: Seq<char>,
    one: Seq<char>,
) -> Seq<char>
    decreases x,
{
    if x <= 0 {
        Seq::empty()
    } else {
        row_prefix(bits, wb, x - 1, y, zero, one) + cell_chars(bits, wb, x - 1, y, zero, one)
    }
}

/// Output row `y` in full: one cell per pixel column.
pub open spec fn row_chars(
    bits: Seq<u8>,
    wb: int,
    y: int,
    zero: Seq<char>,
    one: Seq<char>,
) -> Seq<char> {
    row_prefix(bits, wb, 8 * wb, y, zero, one)
}

/// The first `y` output rows, joined by single newlines.
pub open spec fn rows_prefix(
    bits: Seq<u8>,
    wb: int,
    y: int,
    zero: Seq<char>,
    one: Seq<char>,
) -> Seq<char>
    decreases y,
{
    if y <= 0 {
        Seq::empty()
    } else if y == 1 {
        row_chars(bits, wb, 0, zero, one)
    } else {
        rows_prefix(bits, wb, y - 1, zero, one) + seq!['\n'] + row_chars(bits, wb, y - 1, zero, one)
    }
}

/// The full per-pixel rendering of a 16-row bitmap whose rows are `wb`
/// bytes wide: 16 output rows joined by newlines, no trailing newline.
pub open spec fn render_simple(bits: Seq<u8>, wb: int, zero: Seq<char>, one: Seq<char>) -> Seq<
    char,
> {
    rows_prefix(bits, wb, 16, zero, one)
}

/// The block element standing for a vertical pair of pixels.
pub open spec fn block_char(top: bool, bottom: bool) -> char {
    if top && bottom {
        '█'
    } else if top {
        '▀'
    } else if bottom {
        '▄'
    } else {
        ' '
    }
}

/// The first `x` cells of block output row `r`, which merges pixel rows
/// `2 * r` and `2 * r + 1`.
pub open spec fn blocks_row_prefix(bits: Seq<u8>, wb: int, x: int, r: int) -> Seq<char>
    decreases x,
{
    if x <= 0 {
        Seq::empty()
    } else {
        blocks_row_prefix(bits, wb, x - 1, r) + seq![
            block_char(pixel_set(bits, wb, x - 1, 2 * r), pixel_set(bits, wb, x - 1, 2 * r + 1)),
        ]
    }
}

/// Block output row `r` in full.
pub open spec fn blocks_row_chars(bits: Seq<u8>, wb: int, r: int) -> Seq<char> {
    blocks_row_prefix(bits, wb, 8 * wb, r)
}

/// The first `r` block output rows, joined by single newlines.
pub open spec fn blocks_rows_prefix(bits: Seq<u8>, wb: int, r: int) -> Seq<char>
    decreases r,
{
    if r <= 0 {
        Seq::empty()
    } else if r == 1 {
        blocks_row_chars(bits, wb, 0)
    } else {
        blocks_rows_prefix(bits, wb, r - 1) + seq!['\n'] + blocks_row_chars(bits, wb, r - 1)
    }
}

/// The full block rendering of a 16-row bitmap: 8 output rows, each
/// merging two pixel rows, joined by newlines with no trailing newline.
pub open spec fn render_blocks(bits: Seq<u8>, wb: int) -> Seq<char> {
    blocks_rows_prefix(bits, wb, 8)
}

/// What [`draw`] returns for each mode, as a function of the raw bitmap
/// bytes and the row width in bytes.
pub open spec fn draw_spec(mode: DrawingMode, bits: Seq<u8>, wb: int) -> Seq<char> {
    match mode {
        DrawingMode::Simple(ch) => render_simple(bits, wb, seq![' '], seq![ch]),
        DrawingMode::Wide(ch) => render_simple(bits, wb, seq![' ', ' '], seq![ch, ch]),
        DrawingMode::Blocks => render_blocks(bits, wb),
        DrawingMode::WideBlocks => render_simple(bits, wb, seq![' ', ' '], seq!['█', '█']),
    }
}

/// Draw a [`Bitmap`] using the specified drawing mode.
pub fn draw(mode: DrawingMode, bitmap: Bitmap) -> (res: String)
    requires
        bitmap.wf(),
    ensures
        res@ == draw_spec(mode, bitmap@, bitmap.row_bytes()),
{
    proof {
        reveal_strlit(" ");
        reveal_strlit("  ");
        reveal_strlit("██");
    }
    match mode {
        DrawingMode::Simple(ch) => {
            let mut one = String::new();
            one.push(ch);
            proof {
                assert(one@ =~= seq![ch]);
                assert(" "@ =~= seq![' ']);
            }
            draw_simple(bitmap, " ", one.as_str())
        },
        DrawingMode::Wide(ch) => {
            let mut one = String::new();
            one.push(ch);
            one.push(ch);
            proof {
                assert(one@ =~= seq![ch, ch]);
                assert("  "@ =~= seq![' ', ' ']);
            }
            draw_simple(bitmap, "  ", one.as_str())
        },
        DrawingMode::Blocks => draw_blocks(bitmap),
        DrawingMode::WideBlocks => {
            proof {
                assert("██"@ =~= seq!['█', '█']);
                assert("  "@ =~= seq![' ', ' ']);
            }
            draw_simple(bitmap, "  ", "██")
        },
    }
}

/// Draw a [`Bitmap`] using the given strings for zero and one bits.
pub(crate) fn draw_simple(bitmap: Bitmap, zero: &str, one: &str) -> (res: String)
    requires
        bitmap.wf(),
    ensures
        res@ == render_simple(bitmap@, bitmap.row_bytes(), zero@, one@),
{
    proof {
        reveal_strlit("\n");
    }
    let ghost wb = bitmap.row_bytes();
    let mut result = String::new();
    let mut row: usize = 0;
    while row < bitmap.height
        invariant
            bitmap.wf(),
            row <= bitmap.height,
            wb == bitmap.row_bytes(),
            result@ == rows_prefix(bitmap@, wb, row as int, zero@, one@),
        decreases bitmap.height - row,
    {
        proof {
            reveal_strlit("\n");
        }
        if row > 0 {
            result.append("\n");
        }
        let mut col: usize = 0;
        while col < bitmap.width
            invariant
                bitmap.wf(),
                row < bitmap.height,
                col <= bitmap.width,
                wb == bitmap.row_bytes(),
                result@ =~= rows_prefix(bitmap@, wb, row as int, zero@, one@) + (if row == 0 {
                    Seq::<char>::empty()
                } else {
                    seq!['\n']
                }) + row_prefix(bitmap@, wb, col as int, row as int, zero@, one@),
        decreases bitmap.width - col,
        {
            let bit = bitmap.get_pixel(col, row);
            if bit == 1 {
                result.append(one);
            } else {
                result.append(zero);
            }
            col += 1;
        }
        proof {
            assert(bitmap.width as int == 8 * wb);
            assert(result@ =~= rows_prefix(bitmap@, wb, row as int + 1, zero@, one@));
        }
        row += 1;
    }
    result
}

/// Draw a [`Bitmap`] using Unicode block elements. (' ', '▀', '▄', '█')
pub(crate) fn draw_blocks(bitmap: Bitmap) -> (res: String)
    requires
        bitmap.wf(),
    ensures
        res@ == render_blocks(bitmap@, bitmap.row_bytes()),
{
    proof {
        reveal_strlit("\n");
    }
    let ghost wb = bitmap.row_bytes();
    let mut result = String::new();
    let mut r: usize = 0;
    while r < bitmap.height / 2
        invariant
            bitmap.wf(),
            r <= bitmap.height / 2,
            wb == bitmap.row_bytes(),
            result@ == blocks_rows_prefix(bitmap@, wb, r as int),
        decreases bitmap.height / 2 - r,
    {
        proof {
            reveal_strlit("\n");
        }
        if r > 0 {
            result.append("\n");
        }
        let mut col: usize = 0;
        while col < bitmap.width
            invariant
                bitmap.wf(),
                r < bitmap.height / 2,
                col <= bitmap.width,
                wb == bitmap.row_bytes(),
                result@ =~= blocks_rows_prefix(bitmap@, wb, r as int) + (if r == 0 {
                    Seq::<char>::empty()
                } else {
                    seq!['\n']
                }) + blocks_row_prefix(bitmap@, wb, col as int, r as int),
            decreases bitmap.width - col,
        {
            let top = bitmap.get_pixel(col, 2 * r);
            let bottom = bitmap.get_pixel(col, 2 * r + 1);
            if top == 1 && bottom == 1 {
                result.push('█');
            } else if top == 1 {
                result.push('▀');
            } else if bottom == 1 {
                result.push('▄');
            } else {
                result.push(' ');
            }
            col += 1;
        }
        proof {
            assert(bitmap.width as int == 8 * wb);
            assert(result@ =~= blocks_rows_prefix(bitmap@, wb, r as int + 1));
        }
        r += 1;
    }
    result
}


/// The number of newline characters in `s`; a rendering with `k`
/// newlines prints as `k + 1` lines.
pub open spec fn newline_count(s: Seq<char>) -> int
    decreases s.len(),
{
    if s.len() == 0 {
        0
    } else {
        newline_count(s.drop_last()) + (if s.last() == '\n' {
            1int
        } else {
            0int
        })
    }
}

/// Newline counts add up over concatenation.
pub proof fn lemma_newline_count_add(a: Seq<char>, b: Seq<char>)
    ensures
        newline_count(a + b) == newline_count(a) + newline_count(b),
    decreases b.len(),
{
    if b.len() == 0 {
        assert(a + b =~= a);
    } else {
        lemma_newline_count_add(a, b.drop_last());
        assert((a + b).drop_last() =~= a + b.drop_last());
    }
}


/// The newline count of a one-character sequence.
pub proof fn lemma_newline_count_single(c: char)
    ensures
        newline_count(seq![c]) == (if c == '\n' {
            1int
        } else {
            0int
        }),
{
    let s = seq![c];
    assert(s.drop_last() =~= Seq::<char>::empty());
    assert(newline_count(Seq::<char>::empty()) == 0);
    assert(s.last() == c);
    assert(newline_count(s) == newline_count(s.drop_last()) + (if s.last() == '\n' {
        1int
    } else {
        0int
    }));
}

/// The newline count of a two-character sequence of one repeated character.
pub proof fn lemma_newline_count_pair(c: char)
    ensures
        newline_count(seq![c, c]) == (if c == '\n' {
            2int
        } else {
            0int
        }),
{
    lemma_newline_count_single(c);
    assert(seq![c, c] =~= seq![c] + seq![c]);
    lemma_newline_count_add(seq![c], seq![c]);
}

/// A row of per-pixel cells holds no newline when neither cell string does.
pub proof fn lemma_row_prefix_newlines(
    bits: Seq<u8>,
    wb: int,
    x: int,
    y: int,
    zero: Seq<char>,
    one: Seq<char>,
)
    requires
        newline_count(zero) == 0,
        newline_count(one) == 0,
    ensures
        newline_count(row_prefix(bits, wb, x, y, zero, one)) == 0,
    decreases x,
{
    if x > 0 {
        lemma_row_prefix_newlines(bits, wb, x - 1, y, zero, one);
        lemma_newline_count_add(
            row_prefix(bits, wb, x - 1, y, zero, one),
            cell_chars(bits, wb, x - 1, y, zero, one),
        );
    }
}

/// `y` output rows joined by newlines hold exactly `y - 1` newlines.
pub proof fn lemma_rows_prefix_newlines(
    bits: Seq<u8>,
    wb: int,
    y: int,
    zero: Seq<char>,
    one: Seq<char>,
)
    requires
        newline_count(zero) == 0,
        newline_count(one) == 0,
        y >= 1,
    ensures
        newline_count(rows_prefix(bits, wb, y, zero, one)) == y - 1,
    decreases y,
{
    if y == 1 {
        lemma_row_prefix_newlines(bits, wb, 8 * wb, 0, zero, one);
    } else {
        lemma_rows_prefix_newlines(bits, wb, y - 1, zero, one);
        lemma_row_prefix_newlines(bits, wb, 8 * wb, y - 1, zero, one);
        lemma_newline_count_single('\n');
        lemma_newline_count_add(rows_prefix(bits, wb, y - 1, zero, one), seq!['\n']);
        lemma_newline_count_add(
            rows_prefix(bits, wb, y - 1, zero, one) + seq!['\n'],
            row_chars(bits, wb, y - 1, zero, one),
        );
    }
}

/// A block output row holds no newline: none of the four block cells is one.
pub proof fn lemma_blocks_row_prefix_newlines(bits: Seq<u8>, wb: int, x: int, r: int)
    ensures
        newline_count(blocks_row_prefix(bits, wb, x, r)) == 0,
    decreases x,
{
    if x > 0 {
        lemma_blocks_row_prefix_newlines(bits, wb, x - 1, r);
        let top = pixel_set(bits, wb, x - 1, 2 * r);
        let bottom = pixel_set(bits, wb, x - 1, 2 * r + 1);
        lemma_newline_count_single(block_char(top, bottom));
        lemma_newline_count_add(blocks_row_prefix(bits, wb, x - 1, r), seq![block_char(top, bottom)]);
    }
}

/// `r` block output rows joined by newlines hold exactly `r - 1` newlines.
pub proof fn lemma_blocks_rows_prefix_newlines(bits: Seq<u8>, wb: int, r: int)
    requires
        r >= 1,
    ensures
        newline_count(blocks_rows_prefix(bits, wb, r)) == r - 1,
    decreases r,
{
    if r == 1 {
        lemma_blocks_row_prefix_newlines(bits, wb, 8 * wb, 0);
    } else {
        lemma_blocks_rows_prefix_newlines(bits, wb, r - 1);
        lemma_blocks_row_prefix_newlines(bits, wb, 8 * wb, r - 1);
        lemma_newline_count_single('\n');
        lemma_newline_count_add(blocks_rows_prefix(bits, wb, r - 1), seq!['\n']);
        lemma_newline_count_add(
            blocks_rows_prefix(bits, wb, r - 1) + seq!['\n'],
            blocks_row_chars(bits, wb, r - 1),
        );
    }
}

/// What any rendering prints as: under the per-pixel-row modes the
/// output has 16 lines (15 newlines) as long as the foreground
/// character is not itself a newline, and under the block mode 8 lines
/// (7 newlines).
pub proof fn lemma_draw_spec_newlines(mode: DrawingMode, bits: Seq<u8>, wb: int)
    requires
        match mode {
            DrawingMode::Simple(ch) => ch != '\n',
            DrawingMode::Wide(ch) => ch != '\n',
            DrawingMode::Blocks => true,
            DrawingMode::WideBlocks => true,
        },
    ensures
        newline_count(draw_spec(mode, bits, wb)) == (if mode is Blocks {
            7int
        } else {
            15int
        }),
{
    match mode {
        DrawingMode::Simple(ch) => {
            lemma_newline_count_single(' ');
            lemma_newline_count_single(ch);
            lemma_rows_prefix_newlines(bits, wb, 16, seq![' '], seq![ch]);
        },
        DrawingMode::Wide(ch) => {
            lemma_newline_count_pair(' ');
            lemma_newline_count_pair(ch);
            lemma_rows_prefix_newlines(bits, wb, 16, seq![' ', ' '], seq![ch, ch]);
        },
        DrawingMode::Blocks => {
            lemma_blocks_rows_prefix_newlines(bits, wb, 8);
        },
        DrawingMode::WideBlocks => {
            lemma_newline_count_pair(' ');
            lemma_newline_count_pair('█');
            lemma_rows_prefix_newlines(bits, wb, 16, seq![' ', ' '], seq!['█', '█']);
        },
    }
}

} // verus!
