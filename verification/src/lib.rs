//! A low-level pixel-buffer engine: logical pixel access (get/put a pixel at
//! `(x, y)`) decoupled from physical byte layout (packed, planar,
//! chroma-subsampled, or cache-tiled storage).

use vstd::prelude::*;

pub mod arith;
pub mod colorspace;
pub mod kernels;
pub mod surface;
pub mod surfacefactory;
pub mod unified;

pub use self::colorspace::{Channel, Colorspace};
pub use self::surfacefactory::SurfaceFactory;
pub use self::colorspace::{ColorL, ColorLA, ColorRGB, ColorRGBA, ColorYUV};
pub use self::colorspace::conversion::yuv444_to_rgb888;
pub use self::unified::{extract_luma, surface_byte_size, Format, Luma, PlanarFormat, Surface};
pub use self::unified::{Rgb, RgbPlanar, Rgba, RgbaPlanar, Yuv420p, Yuv422, Yuv422p, Yuv444, Yuv444p};

verus! {

/// Tiles are 128 pixels wide.
pub const BOX_WIDTH_SHL: usize = 7;

/// Width of one cache tile, in pixels.
pub const BOX_WIDTH: usize = 128;

/// Tiles are 8 pixels tall.
pub const BOX_HEIGHT_SHL: usize = 3;

/// Height of one cache tile, in pixels.
pub const BOX_HEIGHT: usize = 8;

} // verus!
