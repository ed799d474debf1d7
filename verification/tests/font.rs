//! Tests for the bitmap, the renderer, the glyph tables and the facade.
use ucinfo::bitmap::Bitmap;
use ucinfo::draw::draw;
use ucinfo::draw_glyph;
use ucinfo::unifont::find_entry;
use ucinfo::DrawingMode;
use ucinfo::Font;
use ucinfo::GlyphStore;

const LATIN_SMALL_LETTER_A: [u8; 16] = [
    0x00, 0x00, 0x00, 0x00, 0x00, 0x00, 0x3C, 0x42, 0x02, 0x3E, 0x42, 0x42, 0x46, 0x3A, 0x00, 0x00,
];

const CJK_UNIFIED_IDEOGRAPH_5186: [u8; 32] = [
    0x00, 0x00, 0x7F, 0xFC, 0x41, 0x04, 0x41, 0x04, 0x41, 0x04, 0x41, 0x04, 0x41, 0x04, 0x7F,
    0xFC, 0x40, 0x04, 0x40, 0x04, 0x40, 0x04, 0x40, 0x04, 0x40, 0x04, 0x40, 0x04, 0x40, 0x14,
    0x40, 0x08,
];

fn drawing_simple_latin_small_letter_a() -> String {
    [
        "________", "________", "________", "________", "________", "________", "__####__",
        "_#____#_", "______#_", "__#####_", "_#____#_", "_#____#_", "_#___##_", "__###_#_",
        "________", "________",
    ]
    .join("\n")
}

fn drawing_simple_cjk_unified_ideograph_5186() -> String {
    [
        "________________",
        "_#############__",
        "_#_____#_____#__",
        "_#_____#_____#__",
        "_#_____#_____#__",
        "_#_____#_____#__",
        "_#_____#_____#__",
        "_#############__",
        "_#___________#__",
        "_#___________#__",
        "_#___________#__",
        "_#___________#__",
        "_#___________#__",
        "_#___________#__",
        "_#_________#_#__",
        "_#__________#___",
    ]
    .join("\n")
}

fn drawing_blocks_latin_small_letter_a() -> String {
    [
        "________", "________", "________", "_▄▀▀▀▀▄_", "__▄▄▄▄█_", "_█____█_", "_▀▄▄▄▀█_",
        "________",
    ]
    .join("\n")
}

fn drawing_blocks_cjk_unified_ideograph_5186() -> String {
    [
        "_▄▄▄▄▄▄▄▄▄▄▄▄▄__",
        "_█_____█_____█__",
        "_█_____█_____█__",
        "_█▄▄▄▄▄█▄▄▄▄▄█__",
        "_█___________█__",
        "_█___________█__",
        "_█___________█__",
        "_█_________▀▄▀__",
    ]
    .join("\n")
}

/// One packed record: the codepoint in little-endian order, then the bitmap.
fn record(cp: u32, bitmap: &[u8]) -> Vec<u8> {
    let mut v = cp.to_le_bytes().to_vec();
    v.extend_from_slice(bitmap);
    v
}

fn single_blob() -> Vec<u8> {
    let mut v = record(0x20, &[0u8; 16]);
    v.extend_from_slice(&record(0x61, &LATIN_SMALL_LETTER_A));
    v
}

fn double_blob() -> Vec<u8> {
    let mut v = record(0x3000, &[0u8; 32]);
    v.extend_from_slice(&record(0x5186, &CJK_UNIFIED_IDEOGRAPH_5186));
    v
}

fn test_font() -> Font {
    Font {
        single: GlyphStore::new(single_blob(), 16).unwrap(),
        double: GlyphStore::new(double_blob(), 32).unwrap(),
    }
}

#[test]
fn test_bitmap_dimensions() {
    let Bitmap { width, height, .. } = Bitmap::from_raw_data(LATIN_SMALL_LETTER_A.to_vec());
    assert_eq!(width, 8);
    assert_eq!(height, 16);

    let Bitmap { width, height, .. } = Bitmap::from_raw_data(CJK_UNIFIED_IDEOGRAPH_5186.to_vec());
    assert_eq!(width, 16);
    assert_eq!(height, 16);
}

#[test]
fn test_draw_simple() {
    assert_eq!(
        draw(
            DrawingMode::Simple('#'),
            Bitmap::from_raw_data(LATIN_SMALL_LETTER_A.to_vec())
        ),
        drawing_simple_latin_small_letter_a().replace('_', " ")
    );
    assert_eq!(
        draw(
            DrawingMode::Simple('#'),
            Bitmap::from_raw_data(CJK_UNIFIED_IDEOGRAPH_5186.to_vec())
        ),
        drawing_simple_cjk_unified_ideograph_5186().replace('_', " "),
    );
}

#[test]
fn test_draw_wide() {
    assert_eq!(
        draw(
            DrawingMode::Wide('#'),
            Bitmap::from_raw_data(LATIN_SMALL_LETTER_A.to_vec())
        ),
        drawing_simple_latin_small_letter_a()
            .replace('#', "##")
            .replace('_', "  ")
    );
    assert_eq!(
        draw(
            DrawingMode::Wide('#'),
            Bitmap::from_raw_data(CJK_UNIFIED_IDEOGRAPH_5186.to_vec())
        ),
        drawing_simple_cjk_unified_ideograph_5186()
            .replace('#', "##")
            .replace('_', "  "),
    );
}

#[test]
fn test_draw_blocks() {
    assert_eq!(
        draw(
            DrawingMode::Blocks,
            Bitmap::from_raw_data(LATIN_SMALL_LETTER_A.to_vec())
        ),
        drawing_blocks_latin_small_letter_a().replace('_', " "),
    );

    assert_eq!(
        draw(
            DrawingMode::Blocks,
            Bitmap::from_raw_data(CJK_UNIFIED_IDEOGRAPH_5186.to_vec())
        ),
        drawing_blocks_cjk_unified_ideograph_5186().replace('_', " "),
    );
}

#[test]
fn test_draw_wide_blocks() {
    assert_eq!(
        draw(
            DrawingMode::WideBlocks,
            Bitmap::from_raw_data(LATIN_SMALL_LETTER_A.to_vec())
        ),
        drawing_simple_latin_small_letter_a()
            .replace('#', "██")
            .replace('_', "  "),
    );
    assert_eq!(
        draw(
            DrawingMode::WideBlocks,
            Bitmap::from_raw_data(CJK_UNIFIED_IDEOGRAPH_5186.to_vec())
        ),
        drawing_simple_cjk_unified_ideograph_5186()
            .replace('#', "██")
            .replace('_', "  "),
    );
}

// One final test to rule them all.
#[test]
fn test_draw_glyph() {
    let font = test_font();
    assert_eq!(
        draw_glyph(&font, 0x61, DrawingMode::Simple('#')),
        Some(drawing_simple_latin_small_letter_a().replace('_', " "))
    );
    assert_eq!(
        draw_glyph(&font, 0x5186, DrawingMode::Blocks),
        Some(drawing_blocks_cjk_unified_ideograph_5186().replace('_', " "))
    );
}

#[test]
fn test_find_entry() {
    let font = test_font();
    assert_eq!(find_entry(&font, 0x20).unwrap(), vec![0u8; 16]);
    assert_eq!(
        find_entry(&font, 0x0061).unwrap(),
        LATIN_SMALL_LETTER_A.to_vec()
    );
    assert_eq!(find_entry(&font, 0x3000).unwrap(), vec![0u8; 32]);
    assert_eq!(
        find_entry(&font, 0x5186).unwrap(),
        CJK_UNIFIED_IDEOGRAPH_5186.to_vec()
    );
    assert!(find_entry(&font, 0x110000).is_none());
}

#[test]
fn unifont_test_font_record_size() {
    let font = test_font();
    assert_eq!(font.single.data.len() % (4 + 16), 0);
    assert_eq!(font.double.data.len() % (4 + 32), 0);
}

#[test]
fn test_draw_glyph_space_is_blank() {
    let font = test_font();
    let blank8 = vec!["        "; 16].join("\n");
    let blank16 = vec!["                "; 16].join("\n");
    let blank_blocks = vec!["        "; 8].join("\n");
    assert_eq!(
        draw_glyph(&font, 0x20, DrawingMode::Simple('#')),
        Some(blank8)
    );
    assert_eq!(
        draw_glyph(&font, 0x20, DrawingMode::Wide('#')),
        Some(blank16.clone())
    );
    assert_eq!(
        draw_glyph(&font, 0x20, DrawingMode::Blocks),
        Some(blank_blocks)
    );
    assert_eq!(
        draw_glyph(&font, 0x20, DrawingMode::WideBlocks),
        Some(blank16)
    );
}

#[test]
fn test_draw_glyph_half_blocks_shape() {
    let font = test_font();
    let art = draw_glyph(&font, 0x5186, DrawingMode::Blocks).unwrap();
    let lines: Vec<&str> = art.split('\n').collect();
    assert_eq!(lines.len(), 8);
    for line in lines {
        assert_eq!(line.chars().count(), 16);
        for c in line.chars() {
            assert!(c == ' ' || c == '▀' || c == '▄' || c == '█');
        }
    }
}

#[test]
fn test_draw_glyph_out_of_range_misses() {
    let font = test_font();
    assert!(draw_glyph(&font, 0x110000, DrawingMode::Simple('#')).is_none());
    assert!(draw_glyph(&font, 0x110000, DrawingMode::Wide('#')).is_none());
    assert!(draw_glyph(&font, 0x110000, DrawingMode::Blocks).is_none());
    assert!(draw_glyph(&font, 0x110000, DrawingMode::WideBlocks).is_none());
}

#[test]
fn test_find_entry_between_entries_misses() {
    let font = test_font();
    assert!(find_entry(&font, 0x21).is_none());
    assert!(find_entry(&font, 0x60).is_none());
    assert!(find_entry(&font, 0x3001).is_none());
}

#[test]
fn test_glyph_store_rejects_bad_blobs() {
    assert!(GlyphStore::new(vec![0u8; 21], 16).is_none());
    assert!(GlyphStore::new(vec![0u8; 20], 8).is_none());
    let mut unsorted = record(0x61, &[0u8; 16]);
    unsorted.extend_from_slice(&record(0x20, &[0u8; 16]));
    assert!(GlyphStore::new(unsorted, 16).is_none());
    let mut duplicate = record(0x61, &[0u8; 16]);
    duplicate.extend_from_slice(&record(0x61, &[0u8; 16]));
    assert!(GlyphStore::new(duplicate, 16).is_none());
    assert!(GlyphStore::new(Vec::new(), 16).is_some());
}

#[test]
fn test_get_pixel_reads_bits() {
    let bm = Bitmap::from_raw_data(LATIN_SMALL_LETTER_A.to_vec());
    // Row 6 is 0x3C: pixels 2..=5 set.
    assert_eq!(bm.get_pixel(0, 6), 0);
    assert_eq!(bm.get_pixel(1, 6), 0);
    assert_eq!(bm.get_pixel(2, 6), 1);
    assert_eq!(bm.get_pixel(5, 6), 1);
    assert_eq!(bm.get_pixel(6, 6), 0);
    // Row 8 is 0x02: only pixel 6 set.
    assert_eq!(bm.get_pixel(6, 8), 1);
    assert_eq!(bm.get_pixel(7, 8), 0);
    let wide = Bitmap::from_raw_data(CJK_UNIFIED_IDEOGRAPH_5186.to_vec());
    // Row 1 is 0x7F 0xFC: pixels 1..=13 set.
    assert_eq!(wide.get_pixel(0, 1), 0);
    assert_eq!(wide.get_pixel(1, 1), 1);
    assert_eq!(wide.get_pixel(13, 1), 1);
    assert_eq!(wide.get_pixel(14, 1), 0);
}

#[test]
fn test_draw_glyph_is_deterministic() {
    let font = test_font();
    let first = draw_glyph(&font, 0x61, DrawingMode::Blocks);
    let second = draw_glyph(&font, 0x61, DrawingMode::Blocks);
    assert_eq!(first, second);
}
