//! Luma pixels with an alpha channel.

use vstd::prelude::*;

use crate::colorspace::{Channel, Colorspace, ColorL};

verus! {

/// A two-channel pixel holding a luma sample and an alpha sample.
#[derive(Debug, Clone, Copy, PartialEq, Eq, Structural)]
pub struct ColorLA<T> {
    pub l: T,
    pub a: T,
}

impl<T: Channel> ColorLA<T> {
    /// A fully opaque pixel with the given luma.
    pub fn new_l(l: T) -> (r: ColorLA<T>)
        ensures
            r == (ColorLA { l, a: T::spec_max() }),
    {
        ColorLA { l, a: T::max_value() }
    }

    pub fn new_la(l: T, a: T) -> (r: ColorLA<T>)
        ensures
            r == (ColorLA { l, a }),
    {
        ColorLA { l, a }
    }
}

impl<T: Channel> Colorspace for ColorLA<T> {
    type Channel = T;

    open spec fn spec_white() -> Self {
        ColorLA { l: T::spec_max(), a: T::spec_max() }
    }

    open spec fn spec_black() -> Self {
        ColorLA { l: T::spec_min(), a: T::spec_max() }
    }

    open spec fn luma_defined() -> bool {
        true
    }

    open spec fn spec_luma(self) -> ColorL<T> {
        ColorL { l: self.l }
    }

    open spec fn spec_channels(self) -> Seq<T> {
        seq![self.l, self.a]
    }

    open spec fn spec_channel_count() -> nat {
        2
    }

    open spec fn spec_from_channels(s: Seq<T>) -> Self {
        ColorLA { l: s[0], a: s[1] }
    }

    fn white() -> Self {
        ColorLA { l: T::max_value(), a: T::max_value() }
    }

    fn black() -> Self {
        ColorLA { l: T::min_value(), a: T::max_value() }
    }

    fn luma(&self) -> ColorL<T> {
        ColorL { l: self.l }
    }

    fn channel_count() -> usize {
        2
    }

    fn channels(&self) -> (r: Vec<T>) {
        let mut v: Vec<T> = Vec::new();
        v.push(self.l);
        v.push(self.a);
        proof {
            assert(v@ =~= self.spec_channels());
        }
        v
    }

    fn from_channels(v: &Vec<T>) -> Self {
        ColorLA { l: v[0], a: v[1] }
    }

    proof fn lemma_channels_roundtrip(p: Self) {
        assert(Self::spec_from_channels(p.spec_channels()) == p);
    }
}

} // verus!
