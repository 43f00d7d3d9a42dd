//! Rendering: colors, the bitmap font and the glyph rasterizer.

pub mod canvas;
pub mod colors;
pub mod font;
pub mod text;
