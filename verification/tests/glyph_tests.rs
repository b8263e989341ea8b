use glyph_atlas::glyph::{to_pixels, Glyph, RasterGlyph};

fn raster(width: i32, rows: i32, len: usize) -> RasterGlyph {
    RasterGlyph {
        advance_x: 30 * 64,
        advance_y: 0,
        width,
        rows,
        left: 2,
        top: 33,
        buffer: vec![7; len],
    }
}

#[test]
fn to_pixels_drops_the_fraction() {
    assert_eq!(to_pixels(0), 0);
    assert_eq!(to_pixels(63), 0);
    assert_eq!(to_pixels(64), 1);
    assert_eq!(to_pixels(127), 1);
    assert_eq!(to_pixels(128), 2);
    assert_eq!(to_pixels(1792), 28);
    assert_eq!(to_pixels(1800), 28);
}

#[test]
fn to_pixels_rounds_negative_distances_down() {
    assert_eq!(to_pixels(-1), -1);
    assert_eq!(to_pixels(-64), -1);
    assert_eq!(to_pixels(-65), -2);
    assert_eq!(to_pixels(-128), -2);
    assert_eq!(to_pixels(i64::MIN), -144115188075855872);
    assert_eq!(to_pixels(i64::MAX), 144115188075855871);
}

#[test]
fn from_raster_keeps_metrics_and_converts_advance() {
    let report = RasterGlyph {
        advance_x: 29 * 64 + 63,
        advance_y: -(3 * 64) - 1,
        width: 4,
        rows: 3,
        left: -2,
        top: 31,
        buffer: vec![1, 2, 3, 4, 5, 6, 7, 8, 9, 10, 11, 12],
    };
    let glyph = Glyph::from_raster(report).expect("a valid report");
    assert_eq!(glyph.advance_x(), 29);
    assert_eq!(glyph.advance_y(), -4);
    assert_eq!(glyph.width(), 4);
    assert_eq!(glyph.height(), 3);
    assert_eq!(glyph.bearing_x(), -2);
    assert_eq!(glyph.bearing_y(), 31);
    assert_eq!(glyph.atlas_x(), 0);
    assert_eq!(glyph.coverage(), &[1u8, 2, 3, 4, 5, 6, 7, 8, 9, 10, 11, 12][..]);
}

#[test]
fn from_raster_accepts_an_empty_bitmap() {
    let glyph = Glyph::from_raster(raster(0, 0, 0)).expect("a blank character is valid");
    assert_eq!(glyph.width(), 0);
    assert_eq!(glyph.height(), 0);
    assert_eq!(glyph.advance_x(), 30);
    assert!(glyph.coverage().is_empty());
    assert!(Glyph::from_raster(raster(5, 0, 0)).is_some());
    assert!(Glyph::from_raster(raster(0, 5, 0)).is_some());
}

#[test]
fn from_raster_rejects_negative_sides() {
    assert!(Glyph::from_raster(raster(-1, 3, 0)).is_none());
    assert!(Glyph::from_raster(raster(3, -1, 0)).is_none());
    assert!(Glyph::from_raster(raster(-2, -3, 6)).is_none());
    assert!(Glyph::from_raster(raster(i32::MIN, 1, 0)).is_none());
}

#[test]
fn from_raster_rejects_a_buffer_of_the_wrong_length() {
    assert!(Glyph::from_raster(raster(4, 3, 11)).is_none());
    assert!(Glyph::from_raster(raster(4, 3, 13)).is_none());
    assert!(Glyph::from_raster(raster(4, 3, 0)).is_none());
    assert!(Glyph::from_raster(raster(0, 0, 1)).is_none());
    assert!(Glyph::from_raster(raster(i32::MAX, i32::MAX, 4)).is_none());
    assert!(Glyph::from_raster(raster(4, 3, 12)).is_some());
}

#[test]
fn from_raster_rejects_an_advance_beyond_the_glyph_record() {
    let mut report = raster(1, 1, 1);
    report.advance_x = (i32::MAX as i64 + 1) * 64;
    assert!(Glyph::from_raster(report).is_none());
    let mut report = raster(1, 1, 1);
    report.advance_y = (i32::MIN as i64) * 64 - 1;
    assert!(Glyph::from_raster(report).is_none());
    let mut report = raster(1, 1, 1);
    report.advance_x = (i32::MAX as i64) * 64 + 63;
    report.advance_y = (i32::MIN as i64) * 64;
    let glyph = Glyph::from_raster(report).expect("the largest advances that fit");
    assert_eq!(glyph.advance_x(), i32::MAX);
    assert_eq!(glyph.advance_y(), i32::MIN);
}

#[test]
fn blank_glyph_is_all_zero() {
    let glyph = Glyph::default();
    assert_eq!(glyph.advance_x(), 0);
    assert_eq!(glyph.advance_y(), 0);
    assert_eq!(glyph.width(), 0);
    assert_eq!(glyph.height(), 0);
    assert_eq!(glyph.bearing_x(), 0);
    assert_eq!(glyph.bearing_y(), 0);
    assert_eq!(glyph.atlas_x(), 0);
    assert!(glyph.coverage().is_empty());
}
