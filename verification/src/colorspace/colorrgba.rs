//! Four-channel RGBA pixels with saturating compositing arithmetic.

use vstd::prelude::*;

use crate::colorspace::{Channel, Colorspace, ColorL};
use crate::colorspace::colorrgb::rgb_luma;

verus! {

/// A four-channel pixel holding red, green, blue and alpha samples.
#[derive(Debug, Clone, Copy, PartialEq, Eq, Structural)]
pub struct ColorRGBA<T> {
    pub r: T,
    pub g: T,
    pub b: T,
    pub a: T,
}

impl ColorRGBA<u8> {
    /// Unpack `0xRRGGBBAA` into its four channels.
    pub fn from_packed_rgba(color: u32) -> (c: ColorRGBA<u8>)
        ensures
            c == (ColorRGBA {
                r: ((color >> 24) & 0xFF) as u8,
                g: ((color >> 16) & 0xFF) as u8,
                b: ((color >> 8) & 0xFF) as u8,
                a: (color & 0xFF) as u8,
            }),
    {
        let r = ((color >> 24) & 0xFF) as u8;
        let g = ((color >> 16) & 0xFF) as u8;
        let b = ((color >> 8) & 0xFF) as u8;
        let a = (color & 0xFF) as u8;
        ColorRGBA { r, g, b, a }
    }
}

impl<T: Channel> ColorRGBA<T> {
    pub fn new_rgba(r: T, g: T, b: T, a: T) -> (c: ColorRGBA<T>)
        ensures
            c == (ColorRGBA { r, g, b, a }),
    {
        ColorRGBA { r, g, b, a }
    }

    /// A fully opaque pixel from the three color samples.
    pub fn new_rgb(r: T, g: T, b: T) -> (c: ColorRGBA<T>)
        ensures
            c == (ColorRGBA { r, g, b, a: T::spec_max() }),
    {
        ColorRGBA { r, g, b, a: T::max_value() }
    }

    /// Per-channel saturating addition.
    pub fn add(self, other: ColorRGBA<T>) -> (c: ColorRGBA<T>)
        ensures
            c == (ColorRGBA {
                r: T::spec_add(self.r, other.r),
                g: T::spec_add(self.g, other.g),
                b: T::spec_add(self.b, other.b),
                a: T::spec_add(self.a, other.a),
            }),
    {
        ColorRGBA {
            r: T::add(self.r, other.r),
            g: T::add(self.g, other.g),
            b: T::add(self.b, other.b),
            a: T::add(self.a, other.a),
        }
    }

    /// Per-channel saturating subtraction.
    pub fn sub(self, other: ColorRGBA<T>) -> (c: ColorRGBA<T>)
        ensures
            c == (ColorRGBA {
                r: T::spec_sub(self.r, other.r),
                g: T::spec_sub(self.g, other.g),
                b: T::spec_sub(self.b, other.b),
                a: T::spec_sub(self.a, other.a),
            }),
    {
        ColorRGBA {
            r: T::sub(self.r, other.r),
            g: T::sub(self.g, other.g),
            b: T::sub(self.b, other.b),
            a: T::sub(self.a, other.a),
        }
    }
}

impl<T: Channel> Colorspace for ColorRGBA<T> {
    type Channel = T;

    open spec fn spec_white() -> Self {
        ColorRGBA { r: T::spec_max(), g: T::spec_max(), b: T::spec_max(), a: T::spec_max() }
    }

    open spec fn spec_black() -> Self {
        ColorRGBA { r: T::spec_min(), g: T::spec_min(), b: T::spec_min(), a: T::spec_max() }
    }

    open spec fn luma_defined() -> bool {
        T::converts()
    }

    open spec fn spec_luma(self) -> ColorL<T> {
        ColorL {
            l: T::spec_from_i32(
                rgb_luma(
                    T::spec_to_i32(self.r, 0, 255),
                    T::spec_to_i32(self.g, 0, 255),
                    T::spec_to_i32(self.b, 0, 255),
                ),
                0,
                255,
            ),
        }
    }

    open spec fn spec_channels(self) -> Seq<T> {
        seq![self.r, self.g, self.b, self.a]
    }

    open spec fn spec_channel_count() -> nat {
        4
    }

    open spec fn spec_from_channels(s: Seq<T>) -> Self {
        ColorRGBA { r: s[0], g: s[1], b: s[2], a: s[3] }
    }

    fn white() -> Self {
        ColorRGBA { r: T::max_value(), g: T::max_value(), b: T::max_value(), a: T::max_value() }
    }

    fn black() -> Self {
        ColorRGBA { r: T::min_value(), g: T::min_value(), b: T::min_value(), a: T::max_value() }
    }

    fn luma(&self) -> (out: ColorL<T>) {
        let r = self.r.to_i32(0, 0xFF);
        let g = self.g.to_i32(0, 0xFF);
        let b = self.b.to_i32(0, 0xFF);
        let sum: i64 = 19595 * (r as i64) + 38470 * (g as i64) + 7471 * (b as i64) + 32768;
        let luma_val: i64 = sum / 65536;
        proof {
            crate::arith::lemma_div_nonneg(sum as int, 65536);
            crate::arith::lemma_div_le(sum as int, (65536 * 254 + 32768) as int, 65536);
        }
        ColorL { l: T::from_i32(luma_val as i32, 0, 0xFF) }
    }

    fn channel_count() -> usize {
        4
    }

    fn channels(&self) -> (v: Vec<T>) {
        let mut v: Vec<T> = Vec::new();
        v.push(self.r);
        v.push(self.g);
        v.push(self.b);
        v.push(self.a);
        proof {
            assert(v@ =~= self.spec_channels());
        }
        v
    }

    fn from_channels(v: &Vec<T>) -> Self {
        ColorRGBA { r: v[0], g: v[1], b: v[2], a: v[3] }
    }

    proof fn lemma_channels_roundtrip(p: Self) {
        assert(Self::spec_from_channels(p.spec_channels()) == p);
    }
}

} // verus!
