//! Three-channel YUV pixels.

use vstd::prelude::*;

use crate::colorspace::{Channel, Colorspace, ColorL};

verus! {

/// A three-channel pixel holding one luma and two chroma samples.
#[derive(Debug, Clone, Copy, PartialEq, Eq, Structural)]
pub struct ColorYUV<T> {
    pub y: T,
    pub u: T,
    pub v: T,
}

impl<T: Channel> ColorYUV<T> {
    pub fn new_yuv(y: T, u: T, v: T) -> (c: ColorYUV<T>)
        ensures
            c == (ColorYUV { y, u, v }),
    {
        ColorYUV { y, u, v }
    }
}

impl<T: Channel> Colorspace for ColorYUV<T> {
    type Channel = T;

    open spec fn spec_white() -> Self {
        ColorYUV { y: T::spec_max(), u: T::spec_max(), v: T::spec_max() }
    }

    open spec fn spec_black() -> Self {
        ColorYUV { y: T::spec_min(), u: T::spec_min(), v: T::spec_min() }
    }

    open spec fn luma_defined() -> bool {
        true
    }

    open spec fn spec_luma(self) -> ColorL<T> {
        ColorL { l: self.y }
    }

    open spec fn spec_channels(self) -> Seq<T> {
        seq![self.y, self.u, self.v]
    }

    open spec fn spec_channel_count() -> nat {
        3
    }

    open spec fn spec_from_channels(s: Seq<T>) -> Self {
        ColorYUV { y: s[0], u: s[1], v: s[2] }
    }

    fn white() -> Self {
        ColorYUV { y: T::max_value(), u: T::max_value(), v: T::max_value() }
    }

    fn black() -> Self {
        ColorYUV { y: T::min_value(), u: T::min_value(), v: T::min_value() }
    }

    fn luma(&self) -> ColorL<T> {
        ColorL { l: self.y }
    }

    fn channel_count() -> usize {
        3
    }

    fn channels(&self) -> (v: Vec<T>) {
        let mut v: Vec<T> = Vec::new();
        v.push(self.y);
        v.push(self.u);
        v.push(self.v);
        proof {
            assert(v@ =~= self.spec_channels());
        }
        v
    }

    fn from_channels(v: &Vec<T>) -> Self {
        ColorYUV { y: v[0], u: v[1], v: v[2] }
    }

    proof fn lemma_channels_roundtrip(p: Self) {
        assert(Self::spec_from_channels(p.spec_channels()) == p);
    }
}

} // verus!
