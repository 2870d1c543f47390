//! Turns a decoded raster image into the source text of a GLSL array of
//! `vec4` colours, one element per pixel, with every channel normalized to
//! the range from 0 to 1.
//!
//! * [`raster`]: the image as a grid of 8-bit RGBA pixels,
//! * [`decoded`]: reading an image decoded by the `image` crate into that
//!   grid,
//! * [`digits`]: decimal numerals, for the array dimensions,
//! * [`channel`]: one colour channel as a fixed-point literal with seven
//!   fractional digits,
//! * [`array`]: the text of the array, and the writer that produces it,
//! * [`layout`]: where each pixel and each number stands in that text.

pub mod array;
pub mod channel;
pub mod decoded;
pub mod digits;
pub mod layout;
pub mod raster;
