use glyph_atlas::atlas::{FIRST_CODE, GLYPH_COUNT, LAST_CODE};
use glyph_atlas::font::{assemble, load_font, raster_request};
use glyph_atlas::glyph::{FontError, RasterGlyph};

fn report(i: usize) -> RasterGlyph {
    let width = (i % 4) as i32 + 1;
    let rows = (i % 3) as i32 + 1;
    RasterGlyph {
        advance_x: (width as i64 + 2) * 64,
        advance_y: 0,
        width,
        rows,
        left: 0,
        top: rows,
        buffer: vec![0x80; (width * rows) as usize],
    }
}

fn reports() -> Vec<Option<RasterGlyph>> {
    (0..GLYPH_COUNT).map(|i| Some(report(i))).collect()
}

fn bitmap_font(pixel_size: u32) -> Vec<u8> {
    let mut text = String::new();
    text.push_str("STARTFONT 2.1\n");
    text.push_str(&format!(
        "FONT -test-strip-medium-r-normal--{}-{}-75-75-c-10-iso10646-1\n",
        pixel_size,
        pixel_size * 10
    ));
    text.push_str(&format!("SIZE {} 75 75\n", pixel_size));
    text.push_str("FONTBOUNDINGBOX 1 8 0 -2\n");
    text.push_str("STARTPROPERTIES 4\n");
    text.push_str(&format!("PIXEL_SIZE {}\n", pixel_size));
    text.push_str("FONT_ASCENT 6\n");
    text.push_str("FONT_DESCENT 2\n");
    text.push_str("DEFAULT_CHAR 63\n");
    text.push_str("ENDPROPERTIES\n");
    text.push_str(&format!("CHARS {}\n", GLYPH_COUNT));
    for code in FIRST_CODE..=LAST_CODE {
        let rows = strip_rows(code);
        text.push_str(&format!("STARTCHAR U+{:04X}\n", code));
        text.push_str(&format!("ENCODING {}\n", code));
        text.push_str("SWIDTH 500 0\n");
        text.push_str(&format!("DWIDTH {} 0\n", strip_advance(code)));
        text.push_str(&format!("BBX 1 {} {} {}\n", rows, strip_left(code), strip_descent(code)));
        text.push_str("BITMAP\n");
        for _ in 0..rows {
            text.push_str("80\n");
        }
        text.push_str("ENDCHAR\n");
    }
    text.push_str("ENDFONT\n");
    text.into_bytes()
}

fn strip_rows(code: u32) -> u32 {
    code % 5 + 1
}

fn strip_advance(code: u32) -> u32 {
    code % 3 + 2
}

fn strip_left(code: u32) -> i32 {
    (code % 2) as i32
}

fn strip_descent(code: u32) -> i32 {
    -((code % 3) as i32)
}

#[test]
fn request_is_the_first_face_at_48_pixels_for_codes_32_to_126() {
    let request = raster_request();
    assert_eq!(request.face_index, 0);
    assert_eq!(request.pixel_size, 48);
    assert_eq!(request.codes.len(), 95);
    assert_eq!(request.codes, (32u32..=126).collect::<Vec<u32>>());
    assert_eq!(request.codes[0], 32);
    assert_eq!(request.codes[31], '?' as u32);
    assert_eq!(request.codes[94], 126);
}

#[test]
fn bytes_that_are_no_font_fail_to_load() {
    let bytes: Vec<u8> = vec![1, 2, 3, 4, 5, 6, 7, 8];
    assert_eq!(load_font(&bytes, 4096).err(), Some(FontError::FontLoad));
    let text = b"this is not a font file at all, only some text".to_vec();
    assert_eq!(load_font(&text, 4096).err(), Some(FontError::FontLoad));
}

#[test]
fn empty_bytes_fail_to_load() {
    let bytes: Vec<u8> = Vec::new();
    assert_eq!(load_font(&bytes, 4096).err(), Some(FontError::FontLoad));
}

#[test]
fn font_without_the_wanted_size_fails_to_load() {
    let font = bitmap_font(16);
    assert_eq!(load_font(&font, 4096).err(), Some(FontError::FontLoad));
}

#[test]
fn bitmap_font_is_rasterized_and_packed() {
    let font = bitmap_font(48);
    let atlas = load_font(&font, 4096).expect("a font with a strike of the wanted size");
    assert_eq!(atlas.width(), 95);
    assert_eq!(atlas.height(), 5);
    for code in FIRST_CODE..=LAST_CODE {
        let glyph = atlas.glyph(char::from_u32(code).unwrap());
        assert_eq!(glyph.width(), 1);
        assert_eq!(glyph.height(), strip_rows(code));
        assert_eq!(glyph.atlas_x(), code - FIRST_CODE);
        assert_eq!(glyph.advance_x(), strip_advance(code) as i32);
        assert_eq!(glyph.advance_y(), 0);
        assert_eq!(glyph.bearing_x(), strip_left(code));
        assert_eq!(glyph.bearing_y(), strip_descent(code) + strip_rows(code) as i32);
        assert_eq!(glyph.coverage(), &vec![0x80u8; strip_rows(code) as usize][..]);
    }
}

#[test]
fn loaded_font_that_exceeds_the_limit_is_rejected() {
    let font = bitmap_font(48);
    assert_eq!(load_font(&font, 94).err(), Some(FontError::AtlasTooLarge));
    assert_eq!(load_font(&font, 4).err(), Some(FontError::AtlasTooLarge));
    assert!(load_font(&font, 95).is_ok());
}

#[test]
fn loading_twice_gives_the_same_atlas() {
    let font = bitmap_font(48);
    let first = load_font(&font, 4096).unwrap();
    let second = load_font(&font, 4096).unwrap();
    assert_eq!(first.width(), second.width());
    assert_eq!(first.height(), second.height());
    for code in 0..128u32 {
        let c = char::from_u32(code).unwrap();
        assert_eq!(first.glyph(c).atlas_x(), second.glyph(c).atlas_x());
        assert_eq!(first.glyph(c).coverage(), second.glyph(c).coverage());
    }
}

#[test]
fn assemble_packs_valid_reports() {
    let atlas = assemble(reports(), 4096).expect("all reports are valid");
    let width: i32 = (0..GLYPH_COUNT).map(|i| (i % 4) as i32 + 1).sum();
    assert_eq!(atlas.width(), width as u32);
    assert_eq!(atlas.width(), 236);
    assert_eq!(atlas.height(), 3);
    assert_eq!(atlas.glyph('!').atlas_x(), 1);
    assert_eq!(atlas.glyph('!').advance_x(), 4);
    assert_eq!(atlas.glyph('"').atlas_x(), 3);
}

#[test]
fn assemble_reports_the_character_that_failed_to_render() {
    let mut outcomes = reports();
    outcomes[33] = None;
    assert_eq!(assemble(outcomes, 4096).err(), Some(FontError::GlyphRender { code: 65 }));
    let mut outcomes = reports();
    outcomes[0] = None;
    assert_eq!(assemble(outcomes, 4096).err(), Some(FontError::GlyphRender { code: 32 }));
    let mut outcomes = reports();
    outcomes[94] = None;
    assert_eq!(assemble(outcomes, 4096).err(), Some(FontError::GlyphRender { code: 126 }));
}

#[test]
fn assemble_reports_the_character_with_an_invalid_bitmap() {
    let mut outcomes = reports();
    outcomes[10] = Some(RasterGlyph { width: -1, ..report(10) });
    assert_eq!(
        assemble(outcomes, 4096).err(),
        Some(FontError::InvalidGlyphDimension { code: 42 })
    );
    let mut outcomes = reports();
    outcomes[94] = Some(RasterGlyph { buffer: vec![0; 1000], ..report(94) });
    assert_eq!(
        assemble(outcomes, 4096).err(),
        Some(FontError::InvalidGlyphDimension { code: 126 })
    );
}

#[test]
fn assemble_reports_the_first_failure() {
    let mut outcomes = reports();
    outcomes[20] = Some(RasterGlyph { rows: -3, ..report(20) });
    outcomes[21] = None;
    assert_eq!(
        assemble(outcomes, 4096).err(),
        Some(FontError::InvalidGlyphDimension { code: 52 })
    );
    let mut outcomes = reports();
    outcomes[20] = None;
    outcomes[21] = Some(RasterGlyph { rows: -3, ..report(21) });
    assert_eq!(assemble(outcomes, 4096).err(), Some(FontError::GlyphRender { code: 52 }));
}

#[test]
fn assemble_checks_glyphs_before_the_texture_limit() {
    let mut outcomes = reports();
    outcomes[94] = None;
    assert_eq!(assemble(outcomes, 1).err(), Some(FontError::GlyphRender { code: 126 }));
    assert_eq!(assemble(reports(), 1).err(), Some(FontError::AtlasTooLarge));
    assert_eq!(assemble(reports(), 235).err(), Some(FontError::AtlasTooLarge));
    assert!(assemble(reports(), 236).is_ok());
}
