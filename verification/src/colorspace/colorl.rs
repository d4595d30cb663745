//! Single-channel (luma) pixels.

use vstd::prelude::*;

use crate::colorspace::{Channel, Colorspace};

verus! {

/// A one-channel pixel holding a luma sample.
#[derive(Debug, Clone, Copy, PartialEq, Eq, Structural)]
pub struct ColorL<T> {
    pub l: T,
}

impl<T: Channel> ColorL<T> {
    pub fn new_l(l: T) -> (r: ColorL<T>)
        ensures
            r == (ColorL { l }),
    {
        ColorL { l }
    }
}

impl<T: Channel> Colorspace for ColorL<T> {
    type Channel = T;

    open spec fn spec_white() -> Self {
        ColorL { l: T::spec_max() }
    }

    open spec fn spec_black() -> Self {
        ColorL { l: T::spec_min() }
    }

    open spec fn luma_defined() -> bool {
        true
    }

    open spec fn spec_luma(self) -> ColorL<T> {
        self
    }

    open spec fn spec_channels(self) -> Seq<T> {
        seq![self.l]
    }

    open spec fn spec_channel_count() -> nat {
        1
    }

    open spec fn spec_from_channels(s: Seq<T>) -> Self {
        ColorL { l: s[0] }
    }

    fn white() -> Self {
        ColorL { l: T::max_value() }
    }

    fn black() -> Self {
        ColorL { l: T::min_value() }
    }

    fn luma(&self) -> ColorL<T> {
        ColorL { l: self.l }
    }

    fn channel_count() -> usize {
        1
    }

    fn channels(&self) -> (r: Vec<T>) {
        let mut v: Vec<T> = Vec::new();
        v.push(self.l);
        proof {
            assert(v@ =~= self.spec_channels());
        }
        v
    }

    fn from_channels(v: &Vec<T>) -> Self {
        ColorL { l: v[0] }
    }

    proof fn lemma_channels_roundtrip(p: Self) {
        assert(Self::spec_from_channels(p.spec_channels()) == p);
    }
}

} // verus!
