//! Three-channel RGB pixels.

use vstd::prelude::*;

use crate::colorspace::{Channel, Colorspace, ColorL};

verus! {

/// The BT.601 luma weighting in 16-bit fixed point, over inputs rescaled to
/// the `[0, 255)` domain: `(19595 r + 38470 g + 7471 b + 32768) / 65536`.
pub open spec fn rgb_luma(r: int, g: int, b: int) -> int {
    (19595 * r + 38470 * g + 7471 * b + 32768) / 65536
}

/// A three-channel pixel holding red, green and blue samples.
#[derive(Debug, Clone, Copy, PartialEq, Eq, Structural)]
pub struct ColorRGB<T> {
    pub r: T,
    pub g: T,
    pub b: T,
}

impl<T: Channel> ColorRGB<T> {
    pub fn new_rgb(r: T, g: T, b: T) -> (c: ColorRGB<T>)
        ensures
            c == (ColorRGB { r, g, b }),
    {
        ColorRGB { r, g, b }
    }
}

impl<T: Channel> Colorspace for ColorRGB<T> {
    type Channel = T;

    open spec fn spec_white() -> Self {
        ColorRGB { r: T::spec_max(), g: T::spec_max(), b: T::spec_max() }
    }

    open spec fn spec_black() -> Self {
        ColorRGB { r: T::spec_min(), g: T::spec_min(), b: T::spec_min() }
    }

    open spec fn luma_defined() -> bool {
        T::converts()
    }

    open spec fn spec_luma(self) -> ColorL<T> {
        ColorL {
            l: T::spec_from_i32(
                rgb_luma(
                    T::spec_to_i32(self.r, 0, 255),
                    T::spec_to_i32(self.g, 0, 255),
                    T::spec_to_i32(self.b, 0, 255),
                ),
                0,
                255,
            ),
        }
    }

    open spec fn spec_channels(self) -> Seq<T> {
        seq![self.r, self.g, self.b]
    }

    open spec fn spec_channel_count() -> nat {
        3
    }

    open spec fn spec_from_channels(s: Seq<T>) -> Self {
        ColorRGB { r: s[0], g: s[1], b: s[2] }
    }

    fn white() -> Self {
        ColorRGB { r: T::max_value(), g: T::max_value(), b: T::max_value() }
    }

    fn black() -> Self {
        ColorRGB { r: T::min_value(), g: T::min_value(), b: T::min_value() }
    }

    fn luma(&self) -> (out: ColorL<T>) {
        let r = self.r.to_i32(0, 0xFF);
        let g = self.g.to_i32(0, 0xFF);
        let b = self.b.to_i32(0, 0xFF);
        let sum: i64 = 19595 * (r as i64) + 38470 * (g as i64) + 7471 * (b as i64) + 32768;
        let luma_val: i64 = sum / 65536;
        proof {
            crate::arith::lemma_div_nonneg(sum as int, 65536);
            crate::arith::lemma_div_le(sum as int, (65536 * 254 + 32768) as int, 65536);
        }
        ColorL { l: T::from_i32(luma_val as i32, 0, 0xFF) }
    }

    fn channel_count() -> usize {
        3
    }

    fn channels(&self) -> (v: Vec<T>) {
        let mut v: Vec<T> = Vec::new();
        v.push(self.r);
        v.push(self.g);
        v.push(self.b);
        proof {
            assert(v@ =~= self.spec_channels());
        }
        v
    }

    fn from_channels(v: &Vec<T>) -> Self {
        ColorRGB { r: v[0], g: v[1], b: v[2] }
    }

    proof fn lemma_channels_roundtrip(p: Self) {
        assert(Self::spec_from_channels(p.spec_channels()) == p);
    }
}

} // verus!
