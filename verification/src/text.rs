//! Text shaping: one textured quad of six vertices per character, laid out
//! along a pen that advances glyph by glyph.

use crate::atlas::{lemma_span_within_atlas, populated, Atlas, AtlasView};
use crate::glyph::{Glyph, GlyphView};
use vstd::prelude::*;
use vstd::std_specs::iter::IteratorSpec;

verus! {

/// Number of vertices emitted per character: two triangles.
pub const QUAD_VERTICES: usize = 6;

/// One corner of a glyph quad. `x` and `y` are screen pixels, held wide
/// enough that no text and no origin can carry the pen out of range. `u`
/// and `v` are texels of the atlas texture: `u` divided by the atlas width
/// and `v` divided by the atlas height are the normalized texture
/// coordinates.
#[derive(Debug, PartialEq)]
pub struct Vertex<C> {
    pub x: i128,
    pub y: i128,
    pub color: C,
    pub u: u32,
    pub v: u32,
}

/// The mathematical content of a [`Vertex`].
pub struct VertexView<C> {
    pub x: int,
    pub y: int,
    pub color: C,
    pub u: int,
    pub v: int,
}

impl<C> View for Vertex<C> {
    type V = VertexView<C>;

    open spec fn view(&self) -> VertexView<C> {
        VertexView {
            x: self.x as int,
            y: self.y as int,
            color: self.color,
            u: self.u as int,
            v: self.v as int,
        }
    }
}

/// The views of a sequence of vertices.
pub open spec fn vertex_views<C>(vertices: Seq<Vertex<C>>) -> Seq<VertexView<C>> {
    vertices.map_values(|v: Vertex<C>| v@)
}

/// A pen position in screen pixels.
pub struct Pen {
    pub x: int,
    pub y: int,
}

/// The quad of glyph `g` drawn with the pen at `pen`: top left, bottom left,
/// bottom right, then bottom right, top right, top left. The bitmap's left
/// edge is `bearing_x` right of the pen and its top edge `bearing_y` above
/// the pen. The lower screen edge carries the texture row `height` and the
/// upper screen edge the texture row zero.
pub open spec fn glyph_quad<C>(g: GlyphView, pen: Pen, color: C) -> Seq<VertexView<C>> {
    let left = pen.x + g.bearing_x;
    let low = pen.y - (g.height - g.bearing_y);
    let right = left + g.width;
    let high = low + g.height;
    let u_left = g.atlas_x as int;
    let u_right = (g.atlas_x + g.width) as int;
    let v_low = g.height as int;
    seq![
        VertexView { x: left, y: high, color, u: u_left, v: 0 },
        VertexView { x: left, y: low, color, u: u_left, v: v_low },
        VertexView { x: right, y: low, color, u: u_right, v: v_low },
        VertexView { x: right, y: low, color, u: u_right, v: v_low },
        VertexView { x: right, y: high, color, u: u_right, v: 0 },
        VertexView { x: left, y: high, color, u: u_left, v: 0 },
    ]
}

impl AtlasView {
    /// Where the pen stands when the quad of `c` is drawn, if it stood at
    /// `pen` before: a newline first sends it back to the origin column and
    /// down by one line, which is the height of the atlas.
    pub open spec fn pen_for(self, origin_x: int, pen: Pen, c: char) -> Pen {
        if c == '\n' {
            Pen { x: origin_x, y: pen.y - self.height }
        } else {
            pen
        }
    }

    /// Where the pen stands after `c` is drawn, if it stood at `pen` before.
    pub open spec fn pen_after(self, origin_x: int, pen: Pen, c: char) -> Pen {
        let at = self.pen_for(origin_x, pen, c);
        let g = self.glyph_for(c);
        Pen { x: at.x + g.advance_x, y: at.y + g.advance_y }
    }

    /// Where the pen stands after the first `i` characters of `text` are
    /// drawn from `origin`.
    pub open spec fn pen_at(self, text: Seq<char>, origin: Pen, i: int) -> Pen
        decreases i,
    {
        if i <= 0 {
            origin
        } else {
            self.pen_after(origin.x, self.pen_at(text, origin, i - 1), text[i - 1])
        }
    }

    /// The quad of the character at index `i` of `text` drawn from `origin`.
    pub open spec fn char_quad<C>(self, text: Seq<char>, origin: Pen, color: C, i: int) -> Seq<
        VertexView<C>,
    > {
        glyph_quad(
            self.glyph_for(text[i]),
            self.pen_for(origin.x, self.pen_at(text, origin, i), text[i]),
            color,
        )
    }

    /// All vertices of `text` drawn from `origin`: the quads of its
    /// characters, in order.
    pub open spec fn text_quads<C>(self, text: Seq<char>, origin: Pen, color: C) -> Seq<
        VertexView<C>,
    > {
        Seq::new(
            QUAD_VERTICES as nat * text.len(),
            |j: int| self.char_quad(text, origin, color, j / QUAD_VERTICES as int)[j % QUAD_VERTICES as int],
        )
    }
}

/// The pen never strays further from the origin than a fixed step per
/// character drawn.
pub proof fn lemma_pen_reach(atlas: AtlasView, text: Seq<char>, origin: Pen, i: int)
    requires
        atlas.wf(),
        0 <= i <= text.len(),
    ensures
        origin.x - i * 0x2_0000_0000 <= atlas.pen_at(text, origin, i).x <= origin.x + i
            * 0x2_0000_0000,
        origin.y - i * 0x2_0000_0000 <= atlas.pen_at(text, origin, i).y <= origin.y + i
            * 0x2_0000_0000,
    decreases i,
{
    if i > 0 {
        lemma_pen_reach(atlas, text, origin, i - 1);
        lemma_span_within_atlas(atlas, text[i - 1]);
    }
}

/// However long a text that fits in memory is and wherever its origin
/// stands among the 64-bit integers, the pen stays far within the range of
/// a vertex coordinate.
proof fn lemma_pen_in_range(atlas: AtlasView, text: Seq<char>, origin: Pen, i: int)
    requires
        atlas.wf(),
        0 <= i <= text.len(),
        i <= 0xffff_ffff_ffff_ffff,
        i64::MIN <= origin.x <= i64::MAX,
        i64::MIN <= origin.y <= i64::MAX,
    ensures
        -0x4_0000_0000_0000_0000_0000_0000 <= atlas.pen_at(text, origin, i).x
            <= 0x4_0000_0000_0000_0000_0000_0000,
        -0x4_0000_0000_0000_0000_0000_0000 <= atlas.pen_at(text, origin, i).y
            <= 0x4_0000_0000_0000_0000_0000_0000,
{
    lemma_pen_reach(atlas, text, origin, i);
    assert(i * 0x2_0000_0000 <= 0xffff_ffff_ffff_ffff * 0x2_0000_0000) by (nonlinear_arith)
        requires
            0 <= i <= 0xffff_ffff_ffff_ffff,
    ;
}

/// Drawing a single printable character yields exactly its glyph's quad at
/// the origin: six vertices whose texture coordinates are the corners of
/// the rectangle from the glyph's atlas column to that column plus the
/// glyph's width, and from row zero to the glyph's height.
pub proof fn lemma_single_char_quad<C>(atlas: AtlasView, c: char, origin: Pen, color: C)
    requires
        atlas.wf(),
        populated(c as int),
    ensures
        atlas.text_quads(seq![c], origin, color) == glyph_quad(
            atlas.glyphs[c as int],
            origin,
            color,
        ),
        atlas.text_quads(seq![c], origin, color).len() == QUAD_VERTICES,
        forall|k: int|
            0 <= k < QUAD_VERTICES ==> {
                let vertex = #[trigger] atlas.text_quads(seq![c], origin, color)[k];
                let g = atlas.glyphs[c as int];
                &&& vertex.u == g.atlas_x || vertex.u == g.atlas_x + g.width
                &&& vertex.v == 0 || vertex.v == g.height
                &&& 0 <= vertex.u <= atlas.width
                &&& 0 <= vertex.v <= atlas.height
            },
{
    let text = seq![c];
    let quads = atlas.text_quads(text, origin, color);
    let quad = glyph_quad(atlas.glyphs[c as int], origin, color);
    lemma_span_within_atlas(atlas, c);
    assert(atlas.pen_at(text, origin, 0) == origin);
    assert(atlas.char_quad(text, origin, color, 0) == quad);
    assert(quads =~= quad);
}

/// Every character that is neither printable nor the newline is drawn
/// exactly as `'?'` is.
pub proof fn lemma_fallback_draws_question_mark<C>(
    atlas: AtlasView,
    c: char,
    origin: Pen,
    color: C,
)
    requires
        !populated(c as int),
        c != '\n',
    ensures
        atlas.text_quads(seq![c], origin, color) == atlas.text_quads(seq!['?'], origin, color),
{
    let a = seq![c];
    let b = seq!['?'];
    assert(atlas.glyph_for(c) == atlas.glyph_for('?'));
    assert(atlas.pen_at(a, origin, 0) == atlas.pen_at(b, origin, 0));
    assert(atlas.char_quad(a, origin, color, 0) == atlas.char_quad(b, origin, color, 0));
    assert(atlas.text_quads(a, origin, color) =~= atlas.text_quads(b, origin, color));
}

/// A newline sends the pen back to the origin column and down by the
/// height of the atlas, and leaves it there: whatever follows starts in the
/// column in which the text started.
pub proof fn lemma_newline_returns_pen(atlas: AtlasView, text: Seq<char>, origin: Pen, i: int)
    requires
        atlas.wf(),
        0 <= i < text.len(),
        text[i] == '\n',
    ensures
        atlas.pen_at(text, origin, i + 1) == (Pen {
            x: origin.x,
            y: atlas.pen_at(text, origin, i).y - atlas.height,
        }),
{
    assert(atlas.glyph_for('\n') == GlyphView::blank());
}

/// Any other character is drawn where the pen stands and moves it on by
/// the advance of its glyph.
pub proof fn lemma_pen_advances(atlas: AtlasView, text: Seq<char>, origin: Pen, i: int)
    requires
        0 <= i < text.len(),
        text[i] != '\n',
    ensures
        atlas.pen_for(origin.x, atlas.pen_at(text, origin, i), text[i]) == atlas.pen_at(
            text,
            origin,
            i,
        ),
        atlas.pen_at(text, origin, i + 1) == (Pen {
            x: atlas.pen_at(text, origin, i).x + atlas.glyph_for(text[i]).advance_x,
            y: atlas.pen_at(text, origin, i).y + atlas.glyph_for(text[i]).advance_y,
        }),
{
}

/// Drawing the same text twice from the same origin appends the same block
/// of vertices twice, in the same order.
pub proof fn lemma_draw_twice_repeats<C>(
    atlas: AtlasView,
    text: Seq<char>,
    origin: Pen,
    color: C,
    before: Seq<VertexView<C>>,
)
    ensures
        ({
            let block = atlas.text_quads(text, origin, color);
            let twice = before + block + block;
            let start = before.len() as int;
            let n = QUAD_VERTICES * text.len();
            &&& block.len() == n
            &&& twice.len() == start + 2 * n
            &&& twice.subrange(start, start + n) == block
            &&& twice.subrange(start + n, start + 2 * n) == block
        }),
{
    let block = atlas.text_quads(text, origin, color);
    let twice = before + block + block;
    let start = before.len() as int;
    let n = QUAD_VERTICES * text.len();
    assert(twice.subrange(start, start + n) =~= block);
    assert(twice.subrange(start + n, start + 2 * n) =~= block);
}

/// The first `i + 1` quads of a text are its first `i` quads followed by
/// the quad of the character at index `i`.
pub proof fn lemma_quads_extend<C>(
    atlas: AtlasView,
    text: Seq<char>,
    origin: Pen,
    color: C,
    i: int,
)
    requires
        0 <= i < text.len(),
    ensures
        atlas.text_quads(text, origin, color).take(QUAD_VERTICES * (i + 1))
            == atlas.text_quads(text, origin, color).take(QUAD_VERTICES * i) + atlas.char_quad(
            text,
            origin,
            color,
            i,
        ),
{
    let block = atlas.text_quads(text, origin, color);
    let quad = atlas.char_quad(text, origin, color, i);
    let n = QUAD_VERTICES as int;
    let longer = block.take(n * (i + 1));
    let joined = block.take(n * i) + quad;
    assert(n * (i + 1) <= n * text.len()) by (nonlinear_arith)
        requires
            n == 6,
            i + 1 <= text.len(),
    ;
    assert(quad.len() == n);
    assert(longer.len() == joined.len());
    assert forall|j: int| 0 <= j < longer.len() implies longer[j] == joined[j] by {
        if j >= n * i {
            let k = j - n * i;
            assert(j / n == i && j % n == k) by (nonlinear_arith)
                requires
                    n == 6,
                    j == n * i + k,
                    0 <= k < n,
                    0 <= i,
            ;
        }
    }
    assert(longer =~= joined);
}

/// One step of drawing: once the first `i` quads of a text follow what a
/// sink held, appending the quad of the character at index `i` makes the
/// first `i + 1` quads follow it, and the pen after that character is the
/// pen before the next.
proof fn lemma_draw_step<C>(
    atlas: AtlasView,
    text: Seq<char>,
    origin: Pen,
    color: C,
    i: int,
    before: Seq<VertexView<C>>,
    now: Seq<VertexView<C>>,
    after: Seq<VertexView<C>>,
    pen: Pen,
    next: Pen,
)
    requires
        0 <= i < text.len(),
        pen == atlas.pen_at(text, origin, i),
        now == before + atlas.text_quads(text, origin, color).take(QUAD_VERTICES * i),
        after == now + glyph_quad(
            atlas.glyph_for(text[i]),
            atlas.pen_for(origin.x, pen, text[i]),
            color,
        ),
        next == atlas.pen_after(origin.x, pen, text[i]),
    ensures
        after == before + atlas.text_quads(text, origin, color).take(QUAD_VERTICES * (i + 1)),
        next == atlas.pen_at(text, origin, i + 1),
{
    lemma_quads_extend(atlas, text, origin, color, i);
    let block = atlas.text_quads(text, origin, color);
    assert(after =~= before + block.take(QUAD_VERTICES * (i + 1)));
}

/// The code point of a character.
fn code_point(c: char) -> (code: u32)
    ensures
        code == c as int,
        code <= 0x10FFFF,
{
    c as u32
}

/// Appends to `sink` the quad of `glyph` drawn in `color` with the pen at
/// (`x`, `y`).
fn push_quad<C: Copy>(sink: &mut Vec<Vertex<C>>, glyph: &Glyph, x: i128, y: i128, color: C)
    requires
        glyph@.wf(),
        glyph@.atlas_x + glyph@.width <= u32::MAX,
        -0x10_0000_0000_0000_0000_0000_0000 <= x <= 0x10_0000_0000_0000_0000_0000_0000,
        -0x10_0000_0000_0000_0000_0000_0000 <= y <= 0x10_0000_0000_0000_0000_0000_0000,
    ensures
        final(sink)@.len() == old(sink)@.len() + QUAD_VERTICES,
        final(sink)@.take(old(sink)@.len() as int) == old(sink)@,
        vertex_views(final(sink)@) == vertex_views(old(sink)@) + glyph_quad(
            glyph@,
            Pen { x: x as int, y: y as int },
            color,
        ),
{
    let left: i128 = x + glyph.bearing_x() as i128;
    let low: i128 = y - (glyph.height() as i128 - glyph.bearing_y() as i128);
    let right: i128 = left + glyph.width() as i128;
    let high: i128 = low + glyph.height() as i128;
    let u_left: u32 = glyph.atlas_x();
    let u_right: u32 = u_left + glyph.width();
    let v_low: u32 = glyph.height();
    sink.push(Vertex { x: left, y: high, color, u: u_left, v: 0 });
    sink.push(Vertex { x: left, y: low, color, u: u_left, v: v_low });
    sink.push(Vertex { x: right, y: low, color, u: u_right, v: v_low });
    sink.push(Vertex { x: right, y: low, color, u: u_right, v: v_low });
    sink.push(Vertex { x: right, y: high, color, u: u_right, v: 0 });
    sink.push(Vertex { x: left, y: high, color, u: u_left, v: 0 });
    proof {
        let quad = glyph_quad(glyph@, Pen { x: x as int, y: y as int }, color);
        assert(sink@.take(old(sink)@.len() as int) =~= old(sink)@);
        assert(vertex_views(sink@) =~= vertex_views(old(sink)@) + quad);
    }
}

impl Atlas {
    /// Appends to `sink` the quad of `c` for a pen that stood at (`pen_x`,
    /// `pen_y`) before `c`, in a text that started in column `origin_x`, and
    /// returns where the pen stands after `c`.
    fn push_char<C: Copy>(
        &self,
        sink: &mut Vec<Vertex<C>>,
        c: char,
        origin_x: i64,
        pen_x: i128,
        pen_y: i128,
        color: C,
    ) -> (next: (i128, i128))
        requires
            -0x4_0000_0000_0000_0000_0000_0000 <= pen_x <= 0x4_0000_0000_0000_0000_0000_0000,
            -0x4_0000_0000_0000_0000_0000_0000 <= pen_y <= 0x4_0000_0000_0000_0000_0000_0000,
        ensures
            self@.wf(),
            final(sink)@.len() == old(sink)@.len() + QUAD_VERTICES,
            final(sink)@.take(old(sink)@.len() as int) == old(sink)@,
            vertex_views(final(sink)@) == vertex_views(old(sink)@) + glyph_quad(
                self@.glyph_for(c),
                self@.pen_for(origin_x as int, Pen { x: pen_x as int, y: pen_y as int }, c),
                color,
            ),
            (Pen { x: next.0 as int, y: next.1 as int }) == self@.pen_after(
                origin_x as int,
                Pen { x: pen_x as int, y: pen_y as int },
                c,
            ),
    {
        let code: u32 = code_point(c);
        let glyph = self.glyph(c);
        let line: i128 = self.height() as i128;
        proof {
            lemma_span_within_atlas(self@, c);
        }
        let mut at_x: i128 = pen_x;
        let mut at_y: i128 = pen_y;
        if code == 10 {
            at_x = origin_x as i128;
            at_y = pen_y - line;
        }
        assert(c == '\n' <==> code == 10);
        push_quad(sink, glyph, at_x, at_y, color);
        (at_x + glyph.advance_x() as i128, at_y + glyph.advance_y() as i128)
    }

    /// Appends to `sink` the quads of `text`, six vertices per character,
    /// drawn in `color` with the pen starting at (`x`, `y`). Each character
    /// is drawn with its own glyph if it is printable, with the blank glyph
    /// if it is the newline and with the glyph of `'?'` otherwise, and then
    /// moves the pen by the glyph's advance. A newline first sends the pen
    /// back to column `x` and down by the height of the atlas. What `sink`
    /// held before is kept.
    pub fn draw_text<C: Copy>(&self, sink: &mut Vec<Vertex<C>>, text: &str, x: i64, y: i64, color: C)
        ensures
            self@.wf(),
            final(sink)@.len() == old(sink)@.len() + QUAD_VERTICES * text@.len(),
            final(sink)@.take(old(sink)@.len() as int) == old(sink)@,
            vertex_views(final(sink)@.skip(old(sink)@.len() as int)) == self@.text_quads(
                text@,
                Pen { x: x as int, y: y as int },
                color,
            ),
    {
        let ghost atlas = self@;
        let ghost origin = Pen { x: x as int, y: y as int };
        let ghost before = sink@;
        let ghost block = atlas.text_quads(text@, origin, color);
        let mut pen_x: i128 = x as i128;
        let mut pen_y: i128 = y as i128;
        assert(vertex_views(sink@) =~= vertex_views(before) + block.take(0));
        for c in it: text.chars()
            invariant
                it.seq() == text@,
                atlas == self@,
                origin == (Pen { x: x as int, y: y as int }),
                block == atlas.text_quads(text@, origin, color),
                (Pen { x: pen_x as int, y: pen_y as int }) == atlas.pen_at(
                    text@,
                    origin,
                    it.index() as int,
                ),
                sink@.len() == before.len() + QUAD_VERTICES * it.index(),
                sink@.take(before.len() as int) == before,
                vertex_views(sink@) == vertex_views(before) + block.take(
                    QUAD_VERTICES * it.index(),
                ),
        {
            let ghost i = it.index() as int;
            let ghost start = sink@;
            let ghost pen = Pen { x: pen_x as int, y: pen_y as int };
            proof {
                assert(sink@.len() == sink.len());
                use_type_invariant(self);
                lemma_pen_in_range(atlas, text@, origin, i);
            }
            let next = self.push_char(sink, c, x, pen_x, pen_y, color);
            pen_x = next.0;
            pen_y = next.1;
            proof {
                lemma_draw_step(
                    atlas,
                    text@,
                    origin,
                    color,
                    i,
                    vertex_views(before),
                    vertex_views(start),
                    vertex_views(sink@),
                    pen,
                    Pen { x: pen_x as int, y: pen_y as int },
                );
                assert(sink@.take(before.len() as int) =~= start.take(before.len() as int));
            }
        }
        proof {
            let base = before.len() as int;
            assert(block.take(block.len() as int) =~= block);
            assert(vertex_views(sink@.skip(base)) =~= vertex_views(sink@).skip(base));
            assert(vertex_views(sink@).skip(base) =~= block);
            use_type_invariant(self);
        }
    }
}

} // verus!
