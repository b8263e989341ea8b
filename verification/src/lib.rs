//! A fixed-size ASCII glyph atlas: rasterized glyphs packed side by side
//! into one texture row, and text turned into textured quads.

pub mod atlas;
pub mod font;
pub mod glyph;
pub mod text;

pub use atlas::{Atlas, AtlasView};
pub use font::{assemble, load_font, raster_request, RasterRequest};
pub use glyph::{FontError, Glyph, GlyphView, RasterGlyph};
pub use text::{Pen, Vertex, VertexView};
