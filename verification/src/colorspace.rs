//! Channel arithmetic and the color models built from channels.

use vstd::prelude::*;

pub mod colorl;
pub mod colorla;
pub mod colorrgb;
pub mod colorrgba;
pub mod coloryuv;
pub mod conversion;

pub use self::colorl::ColorL;
pub use self::colorla::ColorLA;
pub use self::colorrgb::ColorRGB;
pub use self::colorrgba::ColorRGBA;
pub use self::coloryuv::ColorYUV;

verus! {

/// One numeric color component: bounded, with saturating arithmetic and a
/// pair of depth-rescaling conversions between the channel scale and an
/// arbitrary integer range `[min, max)`.
pub trait Channel: Sized + Copy {
    /// Smallest representable channel value.
    spec fn spec_min() -> Self;

    /// Largest representable channel value.
    spec fn spec_max() -> Self;

    /// Saturating addition.
    spec fn spec_add(a: Self, b: Self) -> Self;

    /// Saturating subtraction.
    spec fn spec_sub(a: Self, b: Self) -> Self;

    /// Whether the depth-rescaling conversions are provided for this width.
    /// Widths without them fail fast in the source design; here the
    /// conversions simply cannot be called.
    spec fn converts() -> bool;

    /// The channel value standing for `val` inside `[min, max)`:
    /// `(256 * (val - min)) / (max - min)`.
    spec fn spec_from_i32(val: int, min: int, max: int) -> Self;

    /// The value in `[min, max)` that a channel value stands for:
    /// `(v * (max - min)) / 256 + min`.
    spec fn spec_to_i32(v: Self, min: int, max: int) -> int;

    /// Largest sample value of this width, `None` for unbounded models.
    spec fn spec_max_depth() -> Option<u32>;

    fn max_depth() -> (r: Option<u32>)
        ensures
            r == Self::spec_max_depth(),
    ;

    fn min_value() -> (r: Self)
        ensures
            r == Self::spec_min(),
    ;

    fn max_value() -> (r: Self)
        ensures
            r == Self::spec_max(),
    ;

    fn from_i32(val: i32, min: i32, max: i32) -> (r: Self)
        requires
            Self::converts(),
            min <= val < max,
        ensures
            r == Self::spec_from_i32(val as int, min as int, max as int),
    ;

    fn to_i32(&self, min: i32, max: i32) -> (r: i32)
        requires
            Self::converts(),
            min < max,
        ensures
            r as int == Self::spec_to_i32(*self, min as int, max as int),
            min <= r < max,
    ;

    fn add(a: Self, b: Self) -> (r: Self)
        ensures
            r == Self::spec_add(a, b),
    ;

    fn sub(a: Self, b: Self) -> (r: Self)
        ensures
            r == Self::spec_sub(a, b),
    ;
}

impl Channel for u8 {
    open spec fn spec_min() -> u8 {
        0u8
    }

    open spec fn spec_max() -> u8 {
        255u8
    }

    open spec fn spec_add(a: u8, b: u8) -> u8 {
        if a + b > 255 {
            255u8
        } else {
            (a + b) as u8
        }
    }

    open spec fn spec_sub(a: u8, b: u8) -> u8 {
        if a - b < 0 {
            0u8
        } else {
            (a - b) as u8
        }
    }

    open spec fn converts() -> bool {
        true
    }

    open spec fn spec_from_i32(val: int, min: int, max: int) -> u8 {
        ((256 * (val - min)) / (max - min)) as u8
    }

    open spec fn spec_to_i32(v: u8, min: int, max: int) -> int {
        (v * (max - min)) / 256 + min
    }

    open spec fn spec_max_depth() -> Option<u32> {
        Some(255u32)
    }

    fn max_depth() -> Option<u32> {
        Some(255)
    }

    fn min_value() -> u8 {
        0
    }

    fn max_value() -> u8 {
        255
    }

    fn from_i32(val: i32, min: i32, max: i32) -> u8 {
        let val_norm: u64 = (val as i64 - min as i64) as u64;
        let range: u64 = (max as i64 - min as i64) as u64;
        proof {
            assert(256 * val_norm < 256 * range) by (nonlinear_arith)
                requires
                    val_norm < range,
            ;
            crate::arith::lemma_div_nonneg(256 * (val_norm as int), range as int);
            crate::arith::lemma_div_strict_bound(256 * (val_norm as int), 256, range as int);
        }
        let r: u64 = 256 * val_norm / range;
        r as u8
    }

    fn to_i32(&self, min: i32, max: i32) -> i32 {
        let v: u64 = *self as u64;
        let range: u64 = (max as i64 - min as i64) as u64;
        proof {
            assert(v * range < range * 256 && v * range <= 255 * 0x1_0000_0000) by (nonlinear_arith)
                requires
                    v <= 255,
                    0 < range <= 0x1_0000_0000,
            ;
            crate::arith::lemma_div_nonneg((v * range) as int, 256);
            crate::arith::lemma_div_strict_bound((v * range) as int, range as int, 256);
        }
        let q: u64 = v * range / 256;
        (q as i64 + min as i64) as i32
    }

    fn add(a: u8, b: u8) -> u8 {
        a.saturating_add(b)
    }

    fn sub(a: u8, b: u8) -> u8 {
        a.saturating_sub(b)
    }
}

impl Channel for u16 {
    open spec fn spec_min() -> u16 {
        0u16
    }

    open spec fn spec_max() -> u16 {
        65535u16
    }

    open spec fn spec_add(a: u16, b: u16) -> u16 {
        if a + b > 65535 {
            65535u16
        } else {
            (a + b) as u16
        }
    }

    open spec fn spec_sub(a: u16, b: u16) -> u16 {
        if a - b < 0 {
            0u16
        } else {
            (a - b) as u16
        }
    }

    open spec fn converts() -> bool {
        false
    }

    open spec fn spec_from_i32(val: int, min: int, max: int) -> u16 {
        0u16
    }

    open spec fn spec_to_i32(v: u16, min: int, max: int) -> int {
        min
    }

    open spec fn spec_max_depth() -> Option<u32> {
        Some(65535u32)
    }

    fn max_depth() -> Option<u32> {
        Some(65535)
    }

    fn min_value() -> u16 {
        0
    }

    fn max_value() -> u16 {
        65535
    }

    fn from_i32(val: i32, min: i32, max: i32) -> u16 {
        0
    }

    fn to_i32(&self, min: i32, max: i32) -> i32 {
        min
    }

    fn add(a: u16, b: u16) -> u16 {
        a.saturating_add(b)
    }

    fn sub(a: u16, b: u16) -> u16 {
        a.saturating_sub(b)
    }
}

impl Channel for u32 {
    open spec fn spec_min() -> u32 {
        0u32
    }

    open spec fn spec_max() -> u32 {
        0xFFFF_FFFFu32
    }

    open spec fn spec_add(a: u32, b: u32) -> u32 {
        if a + b > 0xFFFF_FFFF {
            0xFFFF_FFFFu32
        } else {
            (a + b) as u32
        }
    }

    open spec fn spec_sub(a: u32, b: u32) -> u32 {
        if a - b < 0 {
            0u32
        } else {
            (a - b) as u32
        }
    }

    open spec fn converts() -> bool {
        false
    }

    open spec fn spec_from_i32(val: int, min: int, max: int) -> u32 {
        0u32
    }

    open spec fn spec_to_i32(v: u32, min: int, max: int) -> int {
        min
    }

    open spec fn spec_max_depth() -> Option<u32> {
        Some(0xFFFF_FFFFu32)
    }

    fn max_depth() -> Option<u32> {
        Some(0xFFFF_FFFF)
    }

    fn min_value() -> u32 {
        0
    }

    fn max_value() -> u32 {
        0xFFFF_FFFF
    }

    fn from_i32(val: i32, min: i32, max: i32) -> u32 {
        0
    }

    fn to_i32(&self, min: i32, max: i32) -> i32 {
        min
    }

    fn add(a: u32, b: u32) -> u32 {
        a.saturating_add(b)
    }

    fn sub(a: u32, b: u32) -> u32 {
        a.saturating_sub(b)
    }
}

/// A fixed-arity tuple of channels forming one color model.
pub trait Colorspace: Sized + Copy {
    type Channel: Channel;

    /// The all-channels-at-maximum sentinel.
    spec fn spec_white() -> Self;

    /// The all-channels-at-minimum sentinel (alpha, where present, stays at
    /// maximum).
    spec fn spec_black() -> Self;

    /// Whether the luma projection is available; weighted projections need
    /// the channel's depth-rescaling conversions.
    spec fn luma_defined() -> bool;

    /// The single-channel projection of this pixel.
    spec fn spec_luma(self) -> ColorL<Self::Channel>;

    /// This pixel's channels, in model order.
    spec fn spec_channels(self) -> Seq<Self::Channel>;

    /// How many channels the model has.
    spec fn spec_channel_count() -> nat;

    /// The pixel assembled from channels in model order.
    spec fn spec_from_channels(s: Seq<Self::Channel>) -> Self;

    fn white() -> (r: Self)
        ensures
            r == Self::spec_white(),
    ;

    fn black() -> (r: Self)
        ensures
            r == Self::spec_black(),
    ;

    fn luma(&self) -> (r: ColorL<Self::Channel>)
        requires
            Self::luma_defined(),
        ensures
            r == self.spec_luma(),
    ;

    fn channel_count() -> (r: usize)
        ensures
            r == Self::spec_channel_count(),
    ;

    fn channels(&self) -> (r: Vec<Self::Channel>)
        ensures
            r@ == self.spec_channels(),
    ;

    fn from_channels(v: &Vec<Self::Channel>) -> (r: Self)
        requires
            v@.len() == Self::spec_channel_count(),
        ensures
            r == Self::spec_from_channels(v@),
    ;

    /// Disassembling and reassembling a pixel is the identity, and the
    /// channel sequence always has the model's arity.
    proof fn lemma_channels_roundtrip(p: Self)
        ensures
            p.spec_channels().len() == Self::spec_channel_count(),
            Self::spec_from_channels(p.spec_channels()) == p,
    ;
}

} // verus!
