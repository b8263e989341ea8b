//! The atlas: every glyph of the printable ASCII range packed left to right
//! into one texture row, in ascending code point order.

use crate::glyph::{lemma_blank_wf, FontError, Glyph, GlyphView};
use vstd::prelude::*;

verus! {

/// Pixel size at which fonts are rasterized.
pub const FONT_SIZE: u32 = 48;

/// Number of entries in the glyph table: one per 7-bit code point.
pub const TABLE_SIZE: usize = 128;

/// First code point that holds a rasterized glyph.
pub const FIRST_CODE: u32 = 32;

/// Last code point that holds a rasterized glyph.
pub const LAST_CODE: u32 = 126;

/// Number of rasterized glyphs: the code points from [`FIRST_CODE`] to
/// [`LAST_CODE`].
pub const GLYPH_COUNT: usize = 95;

/// Code point of `'?'`, whose glyph stands in for every character that is
/// neither printable nor the newline.
pub const FALLBACK_CODE: u32 = 63;

/// Whether the table holds a rasterized glyph for `code`.
pub open spec fn populated(code: int) -> bool {
    FIRST_CODE <= code <= LAST_CODE
}

/// Sum of the widths of the glyphs at the indices from `lo` up to, not
/// including, `hi`.
pub open spec fn total_width(glyphs: Seq<GlyphView>, lo: int, hi: int) -> nat
    decreases hi - lo,
{
    if hi <= lo {
        0
    } else {
        total_width(glyphs, lo, hi - 1) + glyphs[hi - 1].width
    }
}

/// Largest height among the glyphs at the indices from `lo` up to, not
/// including, `hi`; zero when there is none.
pub open spec fn max_height(glyphs: Seq<GlyphView>, lo: int, hi: int) -> nat
    decreases hi - lo,
{
    if hi <= lo {
        0
    } else {
        let rest = max_height(glyphs, lo, hi - 1);
        if glyphs[hi - 1].height > rest {
            glyphs[hi - 1].height
        } else {
            rest
        }
    }
}

/// The views of a sequence of glyphs.
pub open spec fn views(glyphs: Seq<Glyph>) -> Seq<GlyphView> {
    glyphs.map_values(|g: Glyph| g@)
}

/// The mathematical content of an [`Atlas`].
pub struct AtlasView {
    /// Width of the texture in pixels.
    pub width: nat,
    /// Height of the texture in pixels.
    pub height: nat,
    /// The glyph table, indexed by code point.
    pub glyphs: Seq<GlyphView>,
}

impl AtlasView {
    /// The table has [`TABLE_SIZE`] well-formed entries; the entries outside
    /// the printable range are blank; each printable glyph starts where the
    /// glyphs of all smaller code points end; the texture is as wide as all
    /// glyphs together and as high as the tallest of them.
    pub open spec fn wf(self) -> bool {
        &&& self.glyphs.len() == TABLE_SIZE
        &&& forall|c: int| 0 <= c < TABLE_SIZE ==> (#[trigger] self.glyphs[c]).wf()
        &&& forall|c: int|
            0 <= c < TABLE_SIZE && !populated(c) ==> #[trigger] self.glyphs[c]
                == GlyphView::blank()
        &&& forall|c: int|
            populated(c) ==> (#[trigger] self.glyphs[c]).atlas_x == total_width(
                self.glyphs,
                FIRST_CODE as int,
                c,
            )
        &&& self.width == total_width(self.glyphs, FIRST_CODE as int, LAST_CODE + 1)
        &&& self.height == max_height(self.glyphs, FIRST_CODE as int, LAST_CODE + 1)
        &&& self.width <= u32::MAX
        &&& self.height <= u32::MAX
    }

    /// The code point whose table entry is drawn for `c`: that of `c` itself
    /// for a printable character and for the newline, whose entry is blank,
    /// and that of `'?'` for every other character.
    pub open spec fn drawn_code(c: char) -> int {
        if populated(c as int) || c == '\n' {
            c as int
        } else {
            FALLBACK_CODE as int
        }
    }

    /// The glyph drawn for `c`: its own for a printable character, the
    /// blank glyph for the newline, and the glyph of `'?'` for every other
    /// character.
    pub open spec fn glyph_for(self, c: char) -> GlyphView {
        self.glyphs[Self::drawn_code(c)]
    }
}

impl AtlasView {
    /// The left part of row `row` of the texture: what the glyphs of the
    /// code points from [`FIRST_CODE`] up to, not including, `end`
    /// contribute to it, one after the other.
    pub open spec fn row_upto(self, row: int, end: int) -> Seq<u8>
        decreases end,
    {
        if end <= FIRST_CODE {
            Seq::empty()
        } else {
            self.row_upto(row, end - 1) + self.glyphs[end - 1].row(row)
        }
    }

    /// Row `row` of the texture, counted from the row that holds the top
    /// row of every glyph bitmap.
    pub open spec fn texture_row(self, row: int) -> Seq<u8> {
        self.row_upto(row, LAST_CODE + 1)
    }

    /// The first `end` rows of the texture, one after the other.
    pub open spec fn rows_upto(self, end: int) -> Seq<u8>
        decreases end,
    {
        if end <= 0 {
            Seq::empty()
        } else {
            self.rows_upto(end - 1) + self.texture_row(end - 1)
        }
    }

    /// The texture: one coverage byte per pixel, row after row without
    /// padding. Every glyph bitmap stands at its atlas column with its top
    /// row in row zero; pixels below a glyph are zero.
    pub open spec fn bitmap(self) -> Seq<u8> {
        self.rows_upto(self.height as int)
    }
}

/// The atlas that packing `glyphs` yields, where `glyphs[i]` is the glyph of
/// code point `FIRST_CODE + i`: glyph `i` is placed at the total width of
/// the glyphs before it, whatever position it held before.
pub open spec fn packed(glyphs: Seq<GlyphView>) -> AtlasView {
    AtlasView {
        width: total_width(glyphs, 0, GLYPH_COUNT as int),
        height: max_height(glyphs, 0, GLYPH_COUNT as int),
        glyphs: Seq::new(
            TABLE_SIZE as nat,
            |c: int|
                if populated(c) {
                    glyphs[c - FIRST_CODE].placed_at(total_width(glyphs, 0, c - FIRST_CODE))
                } else {
                    GlyphView::blank()
                },
        ),
    }
}

/// A longer run of glyphs is at least as wide as a run it starts with.
pub proof fn lemma_total_width_monotonic(glyphs: Seq<GlyphView>, lo: int, mid: int, hi: int)
    requires
        lo <= mid <= hi,
    ensures
        total_width(glyphs, lo, mid) <= total_width(glyphs, lo, hi),
    decreases hi - mid,
{
    if mid < hi {
        lemma_total_width_monotonic(glyphs, lo, mid, hi - 1);
    }
}

/// No glyph of a run is higher than the run's largest height.
pub proof fn lemma_max_height_covers(glyphs: Seq<GlyphView>, lo: int, hi: int, k: int)
    requires
        lo <= k < hi,
    ensures
        glyphs[k].height <= max_height(glyphs, lo, hi),
    decreases hi - k,
{
    if k < hi - 1 {
        lemma_max_height_covers(glyphs, lo, hi - 1, k);
    }
}

/// Two runs whose glyphs agree in width, one by one, are equally wide.
proof fn lemma_total_width_shifted(
    a: Seq<GlyphView>,
    b: Seq<GlyphView>,
    lo: int,
    hi: int,
    shift: int,
)
    requires
        lo <= hi,
        forall|k: int| lo <= k < hi ==> (#[trigger] a[k]).width == b[k - shift].width,
    ensures
        total_width(a, lo, hi) == total_width(b, lo - shift, hi - shift),
    decreases hi - lo,
{
    if lo < hi {
        lemma_total_width_shifted(a, b, lo, hi - 1, shift);
        assert(a[hi - 1].width == b[hi - 1 - shift].width);
    }
}

/// Two runs whose glyphs agree in height, one by one, have the same largest
/// height.
proof fn lemma_max_height_shifted(
    a: Seq<GlyphView>,
    b: Seq<GlyphView>,
    lo: int,
    hi: int,
    shift: int,
)
    requires
        lo <= hi,
        forall|k: int| lo <= k < hi ==> (#[trigger] a[k]).height == b[k - shift].height,
    ensures
        max_height(a, lo, hi) == max_height(b, lo - shift, hi - shift),
    decreases hi - lo,
{
    if lo < hi {
        lemma_max_height_shifted(a, b, lo, hi - 1, shift);
        assert(a[hi - 1].height == b[hi - 1 - shift].height);
    }
}

/// Packing well-formed glyphs that fit the texture limits of the machine
/// yields a well-formed atlas.
pub proof fn lemma_packed_wf(glyphs: Seq<GlyphView>)
    requires
        glyphs.len() == GLYPH_COUNT,
        forall|i: int| 0 <= i < GLYPH_COUNT ==> (#[trigger] glyphs[i]).wf(),
        total_width(glyphs, 0, GLYPH_COUNT as int) <= u32::MAX,
    ensures
        packed(glyphs).wf(),
{
    let atlas = packed(glyphs);
    let first = FIRST_CODE as int;
    assert forall|c: int| 0 <= c < TABLE_SIZE implies (#[trigger] atlas.glyphs[c]).wf() by {
        if populated(c) {
            lemma_total_width_monotonic(glyphs, 0, c - first, GLYPH_COUNT as int);
            assert(glyphs[c - first].wf());
        } else {
            lemma_blank_wf();
        }
    }
    assert forall|c: int| populated(c) implies (#[trigger] atlas.glyphs[c]).atlas_x
        == total_width(atlas.glyphs, first, c) by {
        lemma_total_width_shifted(atlas.glyphs, glyphs, first, c, first);
    }
    lemma_total_width_shifted(atlas.glyphs, glyphs, first, LAST_CODE + 1, first);
    lemma_max_height_shifted(atlas.glyphs, glyphs, first, LAST_CODE + 1, first);
    assert(max_height(glyphs, 0, GLYPH_COUNT as int) <= u32::MAX) by {
        lemma_max_height_bounded(glyphs, 0, GLYPH_COUNT as int);
    }
}

/// The largest height of a run of well-formed glyphs fits the machine
/// representation of a height.
proof fn lemma_max_height_bounded(glyphs: Seq<GlyphView>, lo: int, hi: int)
    requires
        0 <= lo <= hi <= glyphs.len(),
        forall|i: int| 0 <= i < glyphs.len() ==> (#[trigger] glyphs[i]).wf(),
    ensures
        max_height(glyphs, lo, hi) <= i32::MAX,
    decreases hi - lo,
{
    if lo < hi {
        lemma_max_height_bounded(glyphs, lo, hi - 1);
        assert(glyphs[hi - 1].wf());
    }
}

/// Every glyph of the table holds exactly one coverage byte per pixel of
/// its bitmap.
pub proof fn lemma_coverage_matches_size(atlas: AtlasView, code: int)
    requires
        atlas.wf(),
        0 <= code < TABLE_SIZE,
    ensures
        atlas.glyphs[code].width * atlas.glyphs[code].height == atlas.glyphs[code].coverage.len(),
{
    assert(atlas.glyphs[code].wf());
}

/// Packing is contiguous: a printable glyph ends exactly where the glyph of
/// the next code point starts.
pub proof fn lemma_packing_contiguous(atlas: AtlasView, code: int)
    requires
        atlas.wf(),
        populated(code),
        populated(code + 1),
    ensures
        atlas.glyphs[code].atlas_x + atlas.glyphs[code].width == atlas.glyphs[code + 1].atlas_x,
{
    assert(atlas.glyphs[code].wf());
    assert(atlas.glyphs[code + 1].wf());
}

/// Packing ascends with the code point and no two spans overlap: a
/// printable glyph ends at or before the start of every printable glyph of
/// a larger code point.
pub proof fn lemma_packing_ordered(atlas: AtlasView, c1: int, c2: int)
    requires
        atlas.wf(),
        populated(c1),
        populated(c2),
        c1 < c2,
    ensures
        atlas.glyphs[c1].atlas_x + atlas.glyphs[c1].width <= atlas.glyphs[c2].atlas_x,
{
    assert(atlas.glyphs[c1].wf());
    assert(atlas.glyphs[c2].wf());
    lemma_total_width_monotonic(atlas.glyphs, FIRST_CODE as int, c1 + 1, c2);
}

/// The atlas is exactly as wide as all printable glyphs together, and as
/// high as the tallest of them.
pub proof fn lemma_atlas_size(atlas: AtlasView)
    requires
        atlas.wf(),
    ensures
        atlas.width == total_width(atlas.glyphs, FIRST_CODE as int, LAST_CODE + 1),
        atlas.height == max_height(atlas.glyphs, FIRST_CODE as int, LAST_CODE + 1),
        atlas.height <= i32::MAX,
{
    lemma_max_height_bounded(atlas.glyphs, FIRST_CODE as int, LAST_CODE + 1);
}

/// The glyph drawn for any character lies within the atlas: its span ends
/// at or before the right edge of the texture, and it is no higher than the
/// texture. In normalized texture coordinates neither exceeds one.
pub proof fn lemma_span_within_atlas(atlas: AtlasView, c: char)
    requires
        atlas.wf(),
    ensures
        atlas.glyph_for(c).wf(),
        atlas.glyph_for(c).atlas_x + atlas.glyph_for(c).width <= atlas.width,
        atlas.glyph_for(c).height <= atlas.height,
        atlas.height <= i32::MAX,
{
    let code = AtlasView::drawn_code(c);
    let first = FIRST_CODE as int;
    let end = LAST_CODE + 1;
    assert(atlas.glyph_for(c) == atlas.glyphs[code]);
    assert(atlas.glyphs[code].wf());
    lemma_atlas_size(atlas);
    if populated(code) {
        lemma_total_width_monotonic(atlas.glyphs, first, code + 1, end);
        lemma_max_height_covers(atlas.glyphs, first, end, code);
    }
}

/// The glyphs up to a code point fill as many pixels of a texture row as
/// they are wide together.
pub proof fn lemma_row_len(atlas: AtlasView, row: int, end: int)
    requires
        FIRST_CODE <= end,
    ensures
        atlas.row_upto(row, end).len() == total_width(atlas.glyphs, FIRST_CODE as int, end),
    decreases end,
{
    if end > FIRST_CODE {
        lemma_row_len(atlas, row, end - 1);
    }
}

/// The first rows of the texture hold one atlas width of pixels each.
pub proof fn lemma_rows_len(atlas: AtlasView, end: int)
    requires
        atlas.wf(),
        0 <= end,
    ensures
        atlas.rows_upto(end).len() == end * atlas.width,
    decreases end,
{
    if end > 0 {
        lemma_rows_len(atlas, end - 1);
        lemma_row_len(atlas, end - 1, LAST_CODE + 1);
        assert((end - 1) * atlas.width + atlas.width == end * atlas.width) by (nonlinear_arith);
    } else {
        assert(end * atlas.width == 0) by (nonlinear_arith)
            requires
                end == 0,
        ;
    }
}

/// The texture holds exactly one byte per pixel of the atlas.
pub proof fn lemma_bitmap_len(atlas: AtlasView)
    requires
        atlas.wf(),
    ensures
        atlas.bitmap().len() == atlas.width * atlas.height,
{
    lemma_rows_len(atlas, atlas.height as int);
    assert(atlas.height * atlas.width == atlas.width * atlas.height) by (nonlinear_arith);
}

/// Within a row, the contribution of a glyph starts at the total width of
/// the glyphs before it.
proof fn lemma_row_upto_at(atlas: AtlasView, row: int, end: int, code: int, k: int)
    requires
        FIRST_CODE <= code < end,
        0 <= k < atlas.glyphs[code].width,
    ensures
        total_width(atlas.glyphs, FIRST_CODE as int, code) + k < atlas.row_upto(row, end).len(),
        atlas.row_upto(row, end)[total_width(atlas.glyphs, FIRST_CODE as int, code) + k]
            == atlas.glyphs[code].row(row)[k],
    decreases end,
{
    lemma_row_len(atlas, row, end - 1);
    if code < end - 1 {
        lemma_row_upto_at(atlas, row, end - 1, code, k);
    }
}

/// Within the texture, row `row` starts after `row` atlas widths.
proof fn lemma_rows_upto_at(atlas: AtlasView, end: int, row: int, col: int)
    requires
        atlas.wf(),
        0 <= row < end,
        0 <= col < atlas.width,
    ensures
        0 <= row * atlas.width + col < atlas.rows_upto(end).len(),
        atlas.rows_upto(end)[row * atlas.width + col] == atlas.texture_row(row)[col],
    decreases end,
{
    lemma_rows_len(atlas, end - 1);
    lemma_rows_len(atlas, end);
    lemma_row_len(atlas, end - 1, LAST_CODE + 1);
    assert(0 <= row * atlas.width && row * atlas.width + atlas.width <= (end - 1) * atlas.width
        + atlas.width) by (nonlinear_arith)
        requires
            0 <= row <= end - 1,
            0 <= atlas.width,
    ;
    assert((end - 1) * atlas.width + atlas.width == end * atlas.width) by (nonlinear_arith);
    if row < end - 1 {
        lemma_rows_upto_at(atlas, end - 1, row, col);
        assert(row * atlas.width + atlas.width <= (end - 1) * atlas.width) by (nonlinear_arith)
            requires
                0 <= row < end - 1,
                0 <= atlas.width,
        ;
    }
}

/// The bitmap of every printable glyph stands in the texture at the glyph's
/// atlas column, its top row in row zero: the pixel in column `k` of row
/// `row` of the glyph is the pixel in column `atlas_x + k` of row `row` of
/// the texture, and the texture is zero below the glyph.
pub proof fn lemma_bitmap_holds_glyph(atlas: AtlasView, code: int, row: int, k: int)
    requires
        atlas.wf(),
        populated(code),
        0 <= row < atlas.height,
        0 <= k < atlas.glyphs[code].width,
    ensures
        0 <= row * atlas.width + atlas.glyphs[code].atlas_x + k < atlas.bitmap().len(),
        atlas.bitmap()[row * atlas.width + atlas.glyphs[code].atlas_x + k] == (if row
            < atlas.glyphs[code].height {
            atlas.glyphs[code].coverage[row * atlas.glyphs[code].width + k]
        } else {
            0u8
        }),
{
    let g = atlas.glyphs[code];
    assert(g.wf());
    lemma_total_width_monotonic(atlas.glyphs, FIRST_CODE as int, code + 1, LAST_CODE + 1);
    lemma_rows_upto_at(atlas, atlas.height as int, row, g.atlas_x + k);
    lemma_row_upto_at(atlas, row, LAST_CODE + 1, code, k);
}

/// The complete font resource: the size of the atlas texture and, for each
/// of the [`TABLE_SIZE`] code points, the glyph drawn for it. Built once and
/// read-only afterwards.
#[derive(Debug)]
pub struct Atlas {
    width: u32,
    height: u32,
    glyphs: Vec<Glyph>,
}

impl View for Atlas {
    type V = AtlasView;

    closed spec fn view(&self) -> AtlasView {
        AtlasView {
            width: self.width as nat,
            height: self.height as nat,
            glyphs: views(self.glyphs@),
        }
    }
}

impl Atlas {
    /// Every atlas is well-formed.
    #[verifier::type_invariant]
    pub open spec fn inv(self) -> bool {
        self@.wf()
    }

    /// Packs the rasterized glyphs of the code points from [`FIRST_CODE`] to
    /// [`LAST_CODE`], given in ascending order, into one texture row. Glyph
    /// `i` is placed at the total width of the glyphs before it; the texture
    /// is as wide as all glyphs together and as high as the tallest one.
    /// Packing fails exactly when the texture would be wider or higher than
    /// `max_texture_size`.
    pub fn pack(glyphs: Vec<Glyph>, max_texture_size: u32) -> (r: Result<Atlas, FontError>)
        requires
            glyphs@.len() == GLYPH_COUNT,
        ensures
            r is Ok <==> total_width(views(glyphs@), 0, GLYPH_COUNT as int) <= max_texture_size
                && max_height(views(glyphs@), 0, GLYPH_COUNT as int) <= max_texture_size,
            r matches Ok(atlas) ==> atlas@ == packed(views(glyphs@)) && atlas@.wf(),
            r matches Err(e) ==> e == FontError::AtlasTooLarge,
    {
        let ghost src = views(glyphs@);
        let mut width: u64 = 0;
        let mut height: u32 = 0;
        for i in 0..GLYPH_COUNT
            invariant
                src == views(glyphs@),
                glyphs@.len() == GLYPH_COUNT,
                width == total_width(src, 0, i as int),
                height == max_height(src, 0, i as int),
                width <= i * u32::MAX,
                forall|k: int| 0 <= k < i ==> (#[trigger] src[k]).wf(),
        {
            let g = &glyphs[i];
            assert(g@ == src[i as int]);
            width = width + g.width() as u64;
            if g.height() > height {
                height = g.height();
            }
        }
        if width > max_texture_size as u64 || height > max_texture_size {
            return Err(FontError::AtlasTooLarge);
        }
        let mut table: Vec<Glyph> = Vec::new();
        for c in 0..FIRST_CODE
            invariant
                table@.len() == c,
                src.len() == GLYPH_COUNT,
                forall|k: int| 0 <= k < GLYPH_COUNT ==> (#[trigger] src[k]).wf(),
                forall|k: int| 0 <= k < c ==> (#[trigger] table@[k])@ == GlyphView::blank(),
        {
            table.push(Glyph::default());
        }
        let mut x: u32 = 0;
        for g in it: glyphs
            invariant
                it.seq() == glyphs@,
                src == views(glyphs@),
                glyphs@.len() == GLYPH_COUNT,
                total_width(src, 0, GLYPH_COUNT as int) <= u32::MAX,
                forall|k: int| 0 <= k < GLYPH_COUNT ==> (#[trigger] src[k]).wf(),
                table@.len() == FIRST_CODE + it.index(),
                x == total_width(src, 0, it.index() as int),
                forall|k: int| 0 <= k < FIRST_CODE ==> (#[trigger] table@[k])@ == GlyphView::blank(),
                forall|k: int|
                    FIRST_CODE <= k < FIRST_CODE + it.index() ==> (#[trigger] table@[k])@ == src[k
                        - FIRST_CODE].placed_at(total_width(src, 0, k - FIRST_CODE)),
        {
            let ghost i = it.index() as int;
            assert(g == glyphs@[i]);
            assert(g@ == src[i]);
            proof {
                lemma_total_width_monotonic(src, 0, i + 1, GLYPH_COUNT as int);
            }
            let w: u32 = g.width();
            table.push(g.place(x));
            x = x + w;
        }
        table.push(Glyph::default());
        proof {
            lemma_packed_wf(src);
            let target = packed(src).glyphs;
            assert forall|k: int| 0 <= k < TABLE_SIZE implies views(table@)[k] == target[k] by {
                assert(views(table@)[k] == table@[k]@);
            }
            assert(views(table@) =~= target);
        }
        Ok(Atlas { width: width as u32, height, glyphs: table })
    }

    /// Width of the texture in pixels: the sum of all glyph widths.
    pub fn width(&self) -> (w: u32)
        ensures
            w == self@.width,
            self@.wf(),
    {
        proof {
            use_type_invariant(self);
        }
        self.width
    }

    /// Height of the texture in pixels: the height of the tallest glyph,
    /// which is also the height of a line of text.
    pub fn height(&self) -> (h: u32)
        ensures
            h == self@.height,
            self@.wf(),
    {
        proof {
            use_type_invariant(self);
        }
        self.height
    }

    /// The texture: one coverage byte per pixel, row after row without
    /// padding, `width` bytes per row and `height` rows. Every glyph bitmap
    /// stands at its atlas column with its top row in row zero; pixels
    /// below a glyph are zero.
    pub fn bitmap(&self) -> (pixels: Vec<u8>)
        ensures
            self@.wf(),
            pixels@ == self@.bitmap(),
            pixels@.len() == self@.width * self@.height,
    {
        proof {
            use_type_invariant(self);
            lemma_bitmap_len(self@);
        }
        let mut pixels: Vec<u8> = Vec::new();
        for row in 0..self.height
            invariant
                self@.wf(),
                pixels@ == self@.rows_upto(row as int),
        {
            let ghost done = pixels@;
            for code in FIRST_CODE..(LAST_CODE + 1)
                invariant
                    self@.wf(),
                    pixels@ == done + self@.row_upto(row as int, code as int),
            {
                let glyph = &self.glyphs[code as usize];
                assert(glyph@ == self@.glyphs[code as int]);
                glyph.append_row(row, &mut pixels);
                assert(pixels@ =~= done + self@.row_upto(row as int, code + 1));
            }
        }
        pixels
    }

    /// The glyph drawn for `c`: its own for a printable character, the
    /// blank glyph for the newline, and the glyph of `'?'` for every other
    /// character.
    pub fn glyph(&self, c: char) -> (g: &Glyph)
        ensures
            self@.wf(),
            g@ == self@.glyph_for(c),
            g@.wf(),
    {
        proof {
            use_type_invariant(self);
        }
        let code: u32 = c as u32;
        assert(c == '\n' <==> code == 10);
        let g = if (FIRST_CODE <= code && code <= LAST_CODE) || code == 10 {
            &self.glyphs[code as usize]
        } else {
            &self.glyphs[FALLBACK_CODE as usize]
        };
        assert(g@ == self@.glyphs[AtlasView::drawn_code(c)]);
        g
    }

    /// The entry of the glyph table for `code`, whatever is drawn for that
    /// code point; `None` for a code point beyond the table.
    pub fn entry(&self, code: u32) -> (g: Option<&Glyph>)
        ensures
            self@.wf(),
            g is Some <==> code < TABLE_SIZE,
            g matches Some(glyph) ==> glyph@ == self@.glyphs[code as int] && glyph@.wf(),
    {
        proof {
            use_type_invariant(self);
        }
        if code < TABLE_SIZE as u32 {
            let glyph = &self.glyphs[code as usize];
            assert(glyph@ == self@.glyphs[code as int]);
            Some(glyph)
        } else {
            None
        }
    }
}

} // verus!
