//! Colorspace conversions between surfaces.

pub mod yuv2rgb;

pub use self::yuv2rgb::yuv444_to_rgb888;
