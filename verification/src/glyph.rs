//! Glyph records: what a rasterizer reports for one character, and the
//! validated form of it that an atlas stores.

use vstd::prelude::*;
use vstd::slice::slice_to_vec;

verus! {

/// Why building a font atlas failed. Every variant is fatal: there is no
/// partial atlas.
#[derive(Debug, Clone, Copy, PartialEq, Eq, Structural)]
pub enum FontError {
    /// The font bytes could not be parsed, or the font could not be sized.
    FontLoad,
    /// The rasterizer failed on the character with this code point.
    GlyphRender { code: u32 },
    /// The packed texture is wider or taller than the backend allows.
    AtlasTooLarge,
    /// The rasterizer reported unusable dimensions for the character with
    /// this code point: a negative bitmap side, a bitmap that does not hold
    /// one byte per pixel, or an advance that in whole pixels does not fit
    /// 32 bits.
    InvalidGlyphDimension { code: u32 },
}

/// Whole pixels in a distance given in 1/64 pixel units, rounded down.
pub open spec fn whole_pixels(fixed: int) -> int {
    fixed / 64
}

/// Converts a distance in 1/64 pixel units to whole pixels, rounding down
/// as an arithmetic right shift by six bits does.
pub fn to_pixels(fixed: i64) -> (pixels: i64)
    ensures
        pixels == whole_pixels(fixed as int),
{
    let pixels: i64 = fixed >> 6;
    assert(fixed >> 6 == fixed / 64) by (bit_vector);
    pixels
}

/// One rasterized character exactly as the rasterizer reported it, before
/// any check.
#[derive(Debug)]
pub struct RasterGlyph {
    /// Horizontal pen advance in 1/64 pixel units.
    pub advance_x: i64,
    /// Vertical pen advance in 1/64 pixel units.
    pub advance_y: i64,
    /// Pixels per bitmap row.
    pub width: i32,
    /// Number of bitmap rows.
    pub rows: i32,
    /// Distance from the pen to the left edge of the bitmap, in pixels.
    pub left: i32,
    /// Distance from the baseline up to the top edge of the bitmap, in pixels.
    pub top: i32,
    /// Coverage values, one byte per pixel, row after row.
    pub buffer: Vec<u8>,
}

impl RasterGlyph {
    /// The report is usable: the bitmap has no negative side, holds exactly
    /// one byte per pixel, and the advance in whole pixels fits the glyph
    /// record.
    pub open spec fn valid(&self) -> bool {
        &&& 0 <= self.width
        &&& 0 <= self.rows
        &&& self.buffer@.len() == self.width * self.rows
        &&& i32::MIN <= whole_pixels(self.advance_x as int) <= i32::MAX
        &&& i32::MIN <= whole_pixels(self.advance_y as int) <= i32::MAX
    }

    /// The glyph that a valid report describes, not yet placed in an atlas.
    pub open spec fn glyph(&self) -> GlyphView {
        GlyphView {
            advance_x: whole_pixels(self.advance_x as int),
            advance_y: whole_pixels(self.advance_y as int),
            width: self.width as nat,
            height: self.rows as nat,
            bearing_x: self.left as int,
            bearing_y: self.top as int,
            atlas_x: 0,
            coverage: self.buffer@,
        }
    }
}

/// The mathematical content of a [`Glyph`]. Distances are in pixels.
pub struct GlyphView {
    /// How far the pen moves right after the glyph is drawn.
    pub advance_x: int,
    /// How far the pen moves up after the glyph is drawn.
    pub advance_y: int,
    /// Width of the bitmap.
    pub width: nat,
    /// Height of the bitmap.
    pub height: nat,
    /// Offset from the pen to the left edge of the bitmap.
    pub bearing_x: int,
    /// Offset from the baseline up to the top edge of the bitmap.
    pub bearing_y: int,
    /// Column of the atlas texture at which the bitmap starts. Divided by
    /// the atlas width it is the glyph's normalized horizontal texture
    /// offset.
    pub atlas_x: nat,
    /// Coverage values, one byte per pixel, row after row.
    pub coverage: Seq<u8>,
}

impl GlyphView {
    /// The glyph of a code point that holds no character: every metric zero
    /// and no pixels.
    pub open spec fn blank() -> GlyphView {
        GlyphView {
            advance_x: 0,
            advance_y: 0,
            width: 0,
            height: 0,
            bearing_x: 0,
            bearing_y: 0,
            atlas_x: 0,
            coverage: Seq::empty(),
        }
    }

    /// The bitmap holds exactly `width * height` bytes and every metric fits
    /// its machine representation.
    pub open spec fn wf(self) -> bool {
        &&& self.coverage.len() == self.width * self.height
        &&& i32::MIN <= self.advance_x <= i32::MAX
        &&& i32::MIN <= self.advance_y <= i32::MAX
        &&& i32::MIN <= self.bearing_x <= i32::MAX
        &&& i32::MIN <= self.bearing_y <= i32::MAX
        &&& self.width <= i32::MAX
        &&& self.height <= i32::MAX
        &&& self.atlas_x <= u32::MAX
    }

    /// The same glyph with its bitmap placed at column `x` of the atlas.
    pub open spec fn placed_at(self, x: nat) -> GlyphView {
        GlyphView { atlas_x: x, ..self }
    }

    /// What the glyph contributes to row `row` of a texture, counted from
    /// the top of its bitmap: that row of its coverage, or zeros over its
    /// width where the bitmap has no such row.
    pub open spec fn row(self, row: int) -> Seq<u8> {
        Seq::new(
            self.width,
            |k: int|
                if 0 <= row < self.height {
                    self.coverage[row * self.width + k]
                } else {
                    0u8
                },
        )
    }
}

/// A row of a bitmap lies within the bitmap's bytes.
proof fn lemma_row_within(width: int, height: int, row: int)
    by (nonlinear_arith)
    requires
        0 <= width,
        0 <= row < height,
    ensures
        0 <= row * width,
        row * width + width <= width * height,
{
}

/// The blank glyph is well-formed.
pub proof fn lemma_blank_wf()
    ensures
        GlyphView::blank().wf(),
{
    let blank = GlyphView::blank();
    assert(blank.width * blank.height == 0) by (nonlinear_arith)
        requires
            blank.width == 0,
    ;
}

/// One rasterized character: its coverage bitmap and layout metrics, in
/// pixels. The bitmap always holds exactly `width * height` bytes.
#[derive(Debug)]
pub struct Glyph {
    advance_x: i32,
    advance_y: i32,
    width: u32,
    height: u32,
    bearing_x: i32,
    bearing_y: i32,
    atlas_x: u32,
    buffer: Vec<u8>,
}

impl View for Glyph {
    type V = GlyphView;

    closed spec fn view(&self) -> GlyphView {
        GlyphView {
            advance_x: self.advance_x as int,
            advance_y: self.advance_y as int,
            width: self.width as nat,
            height: self.height as nat,
            bearing_x: self.bearing_x as int,
            bearing_y: self.bearing_y as int,
            atlas_x: self.atlas_x as nat,
            coverage: self.buffer@,
        }
    }
}

impl Default for Glyph {
    /// The blank glyph: every metric zero and no pixels.
    fn default() -> (glyph: Glyph)
        ensures
            glyph@ == GlyphView::blank(),
    {
        Glyph {
            advance_x: 0,
            advance_y: 0,
            width: 0,
            height: 0,
            bearing_x: 0,
            bearing_y: 0,
            atlas_x: 0,
            buffer: Vec::new(),
        }
    }
}

impl Clone for Glyph {
    /// A glyph with the same metrics and a copy of the bitmap.
    fn clone(&self) -> (glyph: Glyph)
        ensures
            glyph@ == self@,
    {
        proof {
            use_type_invariant(self);
        }
        Glyph {
            advance_x: self.advance_x,
            advance_y: self.advance_y,
            width: self.width,
            height: self.height,
            bearing_x: self.bearing_x,
            bearing_y: self.bearing_y,
            atlas_x: self.atlas_x,
            buffer: slice_to_vec(self.buffer.as_slice()),
        }
    }
}

impl Glyph {
    #[verifier::type_invariant]
    spec fn inv(self) -> bool {
        self@.wf()
    }

    /// Checks a rasterizer report and turns it into a glyph. The advance is
    /// converted from 1/64 pixel units to whole pixels. `None` is returned
    /// exactly for a report that is not [`valid`](RasterGlyph::valid).
    pub fn from_raster(raster: RasterGlyph) -> (glyph: Option<Glyph>)
        ensures
            glyph is Some <==> raster.valid(),
            glyph matches Some(g) ==> g@ == raster.glyph() && g@.wf(),
    {
        if raster.width < 0 || raster.rows < 0 {
            return None;
        }
        let width: u32 = raster.width as u32;
        let height: u32 = raster.rows as u32;
        assert(width * height <= 0x7fff_ffff * 0x7fff_ffff) by (nonlinear_arith)
            requires
                width <= 0x7fff_ffff,
                height <= 0x7fff_ffff,
        ;
        let pixels: u64 = (width as u64) * (height as u64);
        if raster.buffer.len() as u64 != pixels {
            return None;
        }
        let advance_x: i64 = to_pixels(raster.advance_x);
        let advance_y: i64 = to_pixels(raster.advance_y);
        if advance_x < i32::MIN as i64 || advance_x > i32::MAX as i64 {
            return None;
        }
        if advance_y < i32::MIN as i64 || advance_y > i32::MAX as i64 {
            return None;
        }
        Some(
            Glyph {
                advance_x: advance_x as i32,
                advance_y: advance_y as i32,
                width,
                height,
                bearing_x: raster.left,
                bearing_y: raster.top,
                atlas_x: 0,
                buffer: raster.buffer,
            },
        )
    }

    /// The same glyph with its bitmap placed at column `x` of an atlas.
    pub(crate) fn place(self, x: u32) -> (glyph: Glyph)
        ensures
            glyph@ == self@.placed_at(x as nat),
            self@.wf(),
    {
        proof {
            use_type_invariant(&self);
        }
        Glyph {
            advance_x: self.advance_x,
            advance_y: self.advance_y,
            width: self.width,
            height: self.height,
            bearing_x: self.bearing_x,
            bearing_y: self.bearing_y,
            atlas_x: x,
            buffer: self.buffer,
        }
    }

    /// Appends to `out` what the glyph contributes to row `row` of a
    /// texture: that row of its coverage, or zeros over its width where the
    /// bitmap has no such row.
    pub fn append_row(&self, row: u32, out: &mut Vec<u8>)
        ensures
            final(out)@ == old(out)@ + self@.row(row as int),
            self@.wf(),
    {
        proof {
            use_type_invariant(self);
        }
        let width: usize = self.width as usize;
        let size: usize = self.buffer.len();
        let ghost before = out@;
        let ghost line = self@.row(row as int);
        if row < self.height {
            proof {
                lemma_row_within(self.width as int, self.height as int, row as int);
                assert(size == self.width * self.height);
            }
            let start: usize = row as usize * width;
            for k in 0..width
                invariant
                    width == self.width,
                    row < self.height,
                    start == row * width,
                    size == self.buffer@.len(),
                    start + width <= size,
                    line == self@.row(row as int),
                    out@ == before + line.take(k as int),
            {
                out.push(self.buffer[start + k]);
                assert(out@ =~= before + line.take(k + 1));
            }
        } else {
            for k in 0..width
                invariant
                    width == self.width,
                    row >= self.height,
                    line == self@.row(row as int),
                    out@ == before + line.take(k as int),
            {
                out.push(0);
                assert(out@ =~= before + line.take(k + 1));
            }
        }
        assert(line.take(width as int) =~= line);
    }

    /// How far the pen moves right after the glyph is drawn.
    pub fn advance_x(&self) -> (r: i32)
        ensures
            r == self@.advance_x,
            self@.wf(),
    {
        proof {
            use_type_invariant(self);
        }
        self.advance_x
    }

    /// How far the pen moves up after the glyph is drawn.
    pub fn advance_y(&self) -> (r: i32)
        ensures
            r == self@.advance_y,
            self@.wf(),
    {
        proof {
            use_type_invariant(self);
        }
        self.advance_y
    }

    /// Width of the bitmap.
    pub fn width(&self) -> (r: u32)
        ensures
            r == self@.width,
            self@.wf(),
    {
        proof {
            use_type_invariant(self);
        }
        self.width
    }

    /// Height of the bitmap.
    pub fn height(&self) -> (r: u32)
        ensures
            r == self@.height,
            self@.wf(),
    {
        proof {
            use_type_invariant(self);
        }
        self.height
    }

    /// Offset from the pen to the left edge of the bitmap.
    pub fn bearing_x(&self) -> (r: i32)
        ensures
            r == self@.bearing_x,
            self@.wf(),
    {
        proof {
            use_type_invariant(self);
        }
        self.bearing_x
    }

    /// Offset from the baseline up to the top edge of the bitmap.
    pub fn bearing_y(&self) -> (r: i32)
        ensures
            r == self@.bearing_y,
            self@.wf(),
    {
        proof {
            use_type_invariant(self);
        }
        self.bearing_y
    }

    /// Column of the atlas texture at which the bitmap starts.
    pub fn atlas_x(&self) -> (r: u32)
        ensures
            r == self@.atlas_x,
            self@.wf(),
    {
        proof {
            use_type_invariant(self);
        }
        self.atlas_x
    }

    /// Coverage values, one byte per pixel, row after row.
    pub fn coverage(&self) -> (r: &[u8])
        ensures
            r@ == self@.coverage,
            self@.wf(),
    {
        proof {
            use_type_invariant(self);
        }
        self.buffer.as_slice()
    }
}

} // verus!
