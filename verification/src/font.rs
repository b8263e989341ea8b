//! Building an atlas from font bytes: the FreeType rasterizer is asked for
//! each printable character in turn, and its reports are checked and packed.

use crate::atlas::{
    max_height, packed, populated, total_width, views, Atlas, FIRST_CODE, FONT_SIZE, GLYPH_COUNT,
};
use crate::glyph::{FontError, Glyph, GlyphView, RasterGlyph};
use vstd::prelude::*;

verus! {

/// `freetype::Library`, a handle to one instance of the FreeType library.
/// Nothing is known of what it holds.
#[verifier::external_type_specification]
#[verifier::external_body]
pub struct ExLibrary(freetype::Library);

/// `freetype::Face`, a font face opened from the bytes `BYTES`, together
/// with its one glyph slot. Nothing is known of what it holds.
#[verifier::external_type_specification]
#[verifier::external_body]
#[verifier::reject_recursive_types(BYTES)]
pub struct ExFace<BYTES>(freetype::Face<BYTES>);

/// `freetype::Error`, the error code of a failed FreeType call. Nothing is
/// known of what it holds.
#[verifier::external_type_specification]
#[verifier::external_body]
pub struct ExError(freetype::Error);

/// `freetype::Library::init` creates a library instance with the default
/// modules, or fails. Nothing is claimed of the outcome.
pub assume_specification[ freetype::Library::init ]() -> (r: Result<
    freetype::Library,
    freetype::Error,
>)
;

/// `freetype::Library::new_memory_face2` opens face `face_index` of the font
/// held in `buffer`, or fails. Nothing is claimed of the outcome.
pub assume_specification<T: std::borrow::Borrow<[u8]>>[ freetype::Library::new_memory_face2::<T> ](
    library: &freetype::Library,
    buffer: T,
    face_index: isize,
) -> (r: Result<freetype::Face<T>, freetype::Error>)
;

/// `freetype::Face::set_pixel_sizes` selects the nominal glyph size of the
/// face in pixels, a zero standing for "same as the other", or fails.
/// Nothing is claimed of the outcome.
pub assume_specification<BYTES>[ freetype::Face::<BYTES>::set_pixel_sizes ](
    face: &freetype::Face<BYTES>,
    pixel_width: u32,
    pixel_height: u32,
) -> (r: Result<(), freetype::Error>)
;

/// Calls `freetype::Face::load_char` with the flag `LoadFlag::RENDER`: the
/// glyph of the character `code` is loaded into the glyph slot of `face` and
/// rendered to a bitmap at once. Nothing is claimed of the outcome.
#[verifier::external_body]
fn load_rendered(face: &freetype::Face<&[u8]>, code: u32) -> (r: Result<(), freetype::Error>) {
    face.load_char(code as usize, freetype::face::LoadFlag::RENDER)
}

/// Calls `freetype::GlyphSlot::render_glyph` with `RenderMode::Normal` on
/// the glyph slot of `face`: whatever the slot holds is turned into a
/// bitmap of 8-bit grayscale coverage. Nothing is claimed of the outcome.
#[verifier::external_body]
fn render_normal(face: &freetype::Face<&[u8]>) -> (r: Result<(), freetype::Error>) {
    face.glyph().render_glyph(freetype::RenderMode::Normal)
}

/// Copies out of the glyph slot of `face` what the accessors of
/// `freetype::GlyphSlot` (`advance`, `bitmap_left`, `bitmap_top`, `bitmap`)
/// and of `freetype::Bitmap` (`width`, `rows`, `buffer`) return. Nothing is
/// claimed of the values: the caller checks them.
#[verifier::external_body]
fn read_slot(face: &freetype::Face<&[u8]>) -> (raster: RasterGlyph) {
    let slot = face.glyph();
    let bitmap = slot.bitmap();
    let advance = slot.advance();
    RasterGlyph {
        advance_x: advance.x as i64,
        advance_y: advance.y as i64,
        width: bitmap.width(),
        rows: bitmap.rows(),
        left: slot.bitmap_left(),
        top: slot.bitmap_top(),
        buffer: bitmap.buffer().to_vec(),
    }
}

/// Rasterizes the character `code` in normal grayscale coverage mode.
/// `None` means that the rasterizer failed on it.
fn rasterize(face: &freetype::Face<&[u8]>, code: u32) -> (raster: Option<RasterGlyph>) {
    match load_rendered(face, code) {
        Err(_) => None,
        Ok(_) => match render_normal(face) {
            Err(_) => None,
            Ok(_) => Some(read_slot(face)),
        },
    }
}

/// The code point whose glyph stands at index `i` of a sequence of
/// rasterized glyphs.
pub open spec fn code_at(i: int) -> int {
    FIRST_CODE + i
}

/// Why the rasterizer's outcome for the character at index `i` cannot be
/// used, if it cannot: the rasterizer failed, or what it reported is not
/// valid.
pub open spec fn failure_at(outcomes: Seq<Option<RasterGlyph>>, i: int) -> Option<FontError> {
    match outcomes[i] {
        None => Some(FontError::GlyphRender { code: code_at(i) as u32 }),
        Some(raster) => if raster.valid() {
            None
        } else {
            Some(FontError::InvalidGlyphDimension { code: code_at(i) as u32 })
        },
    }
}

/// The failure of the smallest index below `end` that has one.
pub open spec fn first_failure(outcomes: Seq<Option<RasterGlyph>>, end: int) -> Option<FontError>
    decreases end,
{
    if end <= 0 {
        None
    } else {
        match first_failure(outcomes, end - 1) {
            Some(e) => Some(e),
            None => failure_at(outcomes, end - 1),
        }
    }
}

/// Once an index has a failure and none below it has, that failure is the
/// first of every longer run.
pub proof fn lemma_first_failure_decides(outcomes: Seq<Option<RasterGlyph>>, i: int, end: int)
    requires
        0 <= i < end,
        first_failure(outcomes, i) is None,
    ensures
        failure_at(outcomes, i) is Some ==> first_failure(outcomes, end) == failure_at(outcomes, i),
        failure_at(outcomes, i) is None ==> first_failure(outcomes, i + 1) is None,
    decreases end - i,
{
    if i + 1 < end {
        lemma_first_failure_decides(outcomes, i, end - 1);
    }
}

/// The glyphs that the rasterizer's outcomes describe, where every one of
/// them can be used.
pub open spec fn reported_glyphs(outcomes: Seq<Option<RasterGlyph>>) -> Seq<GlyphView> {
    Seq::new(outcomes.len(), |i: int| outcomes[i]->0.glyph())
}

/// Builds the atlas from the rasterizer's outcomes for the printable
/// characters, in ascending code point order; `None` stands for a character
/// on which the rasterizer failed. The first character that failed or whose
/// report is not valid decides the error. Where there is none, the glyphs
/// are packed, which fails only if the texture would exceed
/// `max_texture_size` in width or height.
pub fn assemble(outcomes: Vec<Option<RasterGlyph>>, max_texture_size: u32) -> (r: Result<
    Atlas,
    FontError,
>)
    requires
        outcomes@.len() == GLYPH_COUNT,
    ensures
        match first_failure(outcomes@, GLYPH_COUNT as int) {
            Some(e) => r is Err && r->Err_0 == e,
            None => {
                let glyphs = reported_glyphs(outcomes@);
                if total_width(glyphs, 0, GLYPH_COUNT as int) <= max_texture_size && max_height(
                    glyphs,
                    0,
                    GLYPH_COUNT as int,
                ) <= max_texture_size {
                    r is Ok && r->Ok_0@ == packed(glyphs) && r->Ok_0@.wf()
                } else {
                    r is Err && r->Err_0 == FontError::AtlasTooLarge
                }
            },
        },
{
    let ghost reports = outcomes@;
    let mut glyphs: Vec<Glyph> = Vec::new();
    let mut code: u32 = FIRST_CODE;
    for outcome in it: outcomes
        invariant
            it.seq() == reports,
            reports.len() == GLYPH_COUNT,
            code == code_at(it.index() as int),
            first_failure(reports, it.index() as int) is None,
            glyphs@.len() == it.index(),
            forall|k: int|
                0 <= k < it.index() ==> (#[trigger] glyphs@[k])@ == reported_glyphs(reports)[k],
    {
        let ghost i = it.index() as int;
        assert(outcome == reports[i]);
        proof {
            lemma_first_failure_decides(reports, i, GLYPH_COUNT as int);
        }
        match outcome {
            None => {
                return Err(FontError::GlyphRender { code });
            },
            Some(raster) => {
                match Glyph::from_raster(raster) {
                    None => {
                        return Err(FontError::InvalidGlyphDimension { code });
                    },
                    Some(glyph) => {
                        glyphs.push(glyph);
                    },
                }
            },
        }
        code = code + 1;
    }
    assert(views(glyphs@) =~= reported_glyphs(reports));
    Atlas::pack(glyphs, max_texture_size)
}

/// What the rasterizer is asked for: the face of the font that is opened,
/// the pixel size at which it is sized, and the code points that are
/// rasterized, in the order in which they are asked.
#[derive(Debug)]
pub struct RasterRequest {
    /// Index of the face within the font.
    pub face_index: isize,
    /// Nominal height of the glyphs in pixels; the width follows it.
    pub pixel_size: u32,
    /// The code points to rasterize.
    pub codes: Vec<u32>,
}

/// The request that [`load_font`] makes: the first face of the font, sized
/// at [`FONT_SIZE`] pixels, and every code point from [`FIRST_CODE`] to the
/// last printable one, in ascending order.
pub fn raster_request() -> (request: RasterRequest)
    ensures
        request.face_index == 0,
        request.pixel_size == FONT_SIZE,
        request.codes@.len() == GLYPH_COUNT,
        forall|i: int| 0 <= i < GLYPH_COUNT ==> #[trigger] request.codes@[i] == code_at(i),
{
    let mut codes: Vec<u32> = Vec::new();
    for i in 0..GLYPH_COUNT
        invariant
            codes@.len() == i,
            forall|k: int| 0 <= k < i ==> #[trigger] codes@[k] == code_at(k),
    {
        codes.push(FIRST_CODE + i as u32);
    }
    RasterRequest { face_index: 0, pixel_size: FONT_SIZE, codes }
}

/// Rasterizes the printable characters of the font in `font` as
/// [`raster_request`] says and packs them into an atlas whose texture is at
/// most `max_texture_size` wide and high.
///
/// Whether the font parses and what the rasterizer reports for a character
/// is decided by FreeType alone, so no outcome is promised here: the atlas,
/// where there is one, is well-formed and within the limit, and each error
/// names a printable character. [`assemble`] says what becomes of each
/// report.
pub fn load_font(font: &[u8], max_texture_size: u32) -> (r: Result<Atlas, FontError>)
    ensures
        r matches Ok(atlas) ==> atlas@.wf() && atlas@.width <= max_texture_size && atlas@.height
            <= max_texture_size,
        r matches Err(e) ==> match e {
            FontError::FontLoad => true,
            FontError::GlyphRender { code } => populated(code as int),
            FontError::AtlasTooLarge => true,
            FontError::InvalidGlyphDimension { code } => populated(code as int),
        },
{
    let request = raster_request();
    let library = match freetype::Library::init() {
        Ok(library) => library,
        Err(_) => {
            return Err(FontError::FontLoad);
        },
    };
    let face = match library.new_memory_face2(font, request.face_index) {
        Ok(face) => face,
        Err(_) => {
            return Err(FontError::FontLoad);
        },
    };
    match face.set_pixel_sizes(0, request.pixel_size) {
        Ok(_) => {},
        Err(_) => {
            return Err(FontError::FontLoad);
        },
    }
    let mut outcomes: Vec<Option<RasterGlyph>> = Vec::new();
    for i in 0..GLYPH_COUNT
        invariant
            request.codes@.len() == GLYPH_COUNT,
            outcomes@.len() == i,
    {
        outcomes.push(rasterize(&face, request.codes[i]));
    }
    let ghost reports = outcomes@;
    proof {
        lemma_first_failure_names_printable(reports, GLYPH_COUNT as int);
    }
    assemble(outcomes, max_texture_size)
}

/// A failure among the first `end` outcomes names the code point of one of
/// them.
pub proof fn lemma_first_failure_names_printable(outcomes: Seq<Option<RasterGlyph>>, end: int)
    requires
        0 <= end <= GLYPH_COUNT,
    ensures
        match first_failure(outcomes, end) {
            Some(FontError::GlyphRender { code }) => FIRST_CODE <= code < FIRST_CODE + end,
            Some(FontError::InvalidGlyphDimension { code }) => FIRST_CODE <= code < FIRST_CODE + end,
            Some(_) => false,
            None => true,
        },
    decreases end,
{
    if end > 0 {
        lemma_first_failure_names_printable(outcomes, end - 1);
    }
}

} // verus!
