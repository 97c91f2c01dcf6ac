//! Turns a raster image into a grid of characters that approximates its
//! luminance (and optionally its colour) at a chosen terminal size.
//!
//! The pipeline runs sample -> resolve the grid -> reduce windows ->
//! classify -> encode and join.

/// Source samples and their brightness penalty.
pub mod pixel;
/// The source grid, built from an RGBA8 buffer.
pub mod source;
/// Sampling a decoded image.
pub mod decoded;
/// The target grid size.
pub mod dims;
/// Reducing a source window to one cell.
pub mod reduce;
/// The density ramp and the choice of character.
pub mod glyph;
/// Whole-image conversion, sequential and parallel.
pub mod engine;
/// Colour escapes and text assembly.
pub mod render;
/// The command-line options.
pub mod cli;
