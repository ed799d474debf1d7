//! Display-oriented information about Unicode characters: a bitmap font
//! packed into sorted fixed-size records, lookup of a glyph by codepoint,
//! and rendering of a glyph bitmap as character-cell text.
use vstd::prelude::*;

pub mod bitmap;
pub mod bits;
pub mod cmdline;
pub mod draw;
pub mod entities;
pub mod glyph;
pub mod numfmt;
pub mod repertoire;
pub mod strings;
pub mod unifont;

pub use crate::draw::DrawingMode;
pub use crate::unifont::Font;
pub use crate::unifont::GlyphStore;
pub use crate::glyph::Glyph;

use crate::bitmap::Bitmap;
use crate::draw::draw;
use crate::draw::draw_spec;
use crate::draw::lemma_draw_spec_newlines;
use crate::draw::newline_count;
use crate::unifont::find_entry;

verus! {

/// What a lookup-and-draw of `codepoint` under `mode` may return: the
/// rendering of the stored bitmap on a hit, `None` exactly on a miss.
pub open spec fn draw_glyph_result(
    font: Font,
    codepoint: u32,
    mode: DrawingMode,
    r: Option<Seq<char>>,
) -> bool {
    match r {
        Some(s) => font.contains(codepoint as int) && s == draw_spec(
            mode,
            font.glyph(codepoint as int),
            font.glyph(codepoint as int).len() as int / 16,
        ),
        None => !font.contains(codepoint as int),
    }
}

/// Draw the glyph for the specified codepoint, in the specified mode.
///
/// Returns `None` exactly when neither of the font's tables has an
/// entry for the codepoint; otherwise the rendering of the stored
/// bitmap under `mode`.
pub fn draw_glyph(font: &Font, codepoint: u32, mode: DrawingMode) -> (r: Option<String>)
    requires
        font.wf(),
    ensures
        draw_glyph_result(
            *font,
            codepoint,
            mode,
            match r {
                Some(s) => Some(s@),
                None => None,
            },
        ),
{
    match find_entry(font, codepoint) {
        Some(raw) => {
            let bm = Bitmap::from_raw_data(raw);
            Some(draw(mode, bm))
        },
        None => None,
    }
}

/// Drawing is deterministic: the contract pins the result down, so two
/// calls of [`draw_glyph`] with the same arguments yield identical
/// results; there is no hidden state.
pub proof fn lemma_draw_glyph_deterministic(
    font: Font,
    codepoint: u32,
    mode: DrawingMode,
    r1: Option<Seq<char>>,
    r2: Option<Seq<char>>,
)
    requires
        draw_glyph_result(font, codepoint, mode, r1),
        draw_glyph_result(font, codepoint, mode, r2),
    ensures
        r1 == r2,
{
}

/// For every codepoint present in the font, the rendering has exactly
/// 16 lines (15 newlines) under the modes that emit one output row per
/// pixel row, and 8 lines (7 newlines) under `Blocks` — as long as the
/// caller-chosen foreground character is not itself a newline.
pub proof fn lemma_draw_glyph_line_count(
    font: Font,
    codepoint: u32,
    mode: DrawingMode,
    s: Seq<char>,
)
    requires
        font.wf(),
        draw_glyph_result(font, codepoint, mode, Some(s)),
        match mode {
            DrawingMode::Simple(ch) => ch != '\n',
            DrawingMode::Wide(ch) => ch != '\n',
            DrawingMode::Blocks => true,
            DrawingMode::WideBlocks => true,
        },
    ensures
        newline_count(s) == (if mode is Blocks {
            7int
        } else {
            15int
        }),
{
    lemma_draw_spec_newlines(
        mode,
        font.glyph(codepoint as int),
        font.glyph(codepoint as int).len() as int / 16,
    );
}

} // verus!
