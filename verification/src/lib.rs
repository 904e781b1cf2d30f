//! Terminal ASCII-art rendering: finite terminal color palettes, a glyph
//! gradient font model, a per-cell color/glyph quantizer, an image sampler,
//! and a stateful SGR escape-code renderer.

pub mod cell;
pub mod color;
pub mod font;
pub mod image;
pub mod pixel;
pub mod rational;
pub mod rounded_div;
pub mod sgr;
