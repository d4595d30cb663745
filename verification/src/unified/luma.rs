//! Single-plane luma layout: one `w * h` plane, identity offsets.

use vstd::prelude::*;

use crate::colorspace::{Channel, ColorL};
use crate::unified::Format;

verus! {

/// Single-channel layout: element `y * w + x` holds the luma sample of
/// `(x, y)`.
pub struct Luma;

impl<C: Channel> Format<C> for Luma {
    type Pixel = ColorL<C>;

    open spec fn spec_valid_dims(width: u32, height: u32) -> bool {
        width * height <= usize::MAX
    }

    open spec fn spec_size(width: u32, height: u32) -> nat {
        (width * height) as nat
    }

    open spec fn spec_black(width: u32, height: u32) -> Seq<C> {
        Seq::new(<Self as Format<C>>::spec_size(width, height), |i: int| C::spec_min())
    }

    open spec fn spec_get(s: Seq<C>, width: u32, height: u32, x: u32, y: u32) -> ColorL<C> {
        ColorL { l: s[y * width + x] }
    }

    open spec fn spec_put(s: Seq<C>, width: u32, height: u32, x: u32, y: u32, p: ColorL<C>) -> Seq<
        C,
    > {
        s.update(y * width + x, p.l)
    }

    open spec fn pixel_independent() -> bool {
        true
    }

    fn channel_data_size(width: u32, height: u32) -> usize {
        (width as usize) * (height as usize)
    }

    fn init_black(width: u32, height: u32, storage: &mut Vec<C>) {
        let luma_min = C::min_value();
        let n = storage.len();
        let mut i: usize = 0;
        while i < n
            invariant
                i <= n,
                storage@.len() == n,
                luma_min == C::spec_min(),
                forall|j: int| 0 <= j < i ==> storage@[j] == C::spec_min(),
            decreases n - i,
        {
            storage.set(i, luma_min);
            i += 1;
        }
        proof {
            assert(storage@ =~= Self::spec_black(width, height));
        }
    }

    fn get_pixel(storage: &Vec<C>, width: u32, height: u32, x: u32, y: u32) -> ColorL<C> {
        proof {
            crate::arith::lemma_rowmajor_in_grid(x as int, y as int, width as int, height as int);
        }
        let offset_y = (y as usize) * (width as usize) + (x as usize);
        ColorL { l: storage[offset_y] }
    }

    fn put_pixel(storage: &mut Vec<C>, width: u32, height: u32, x: u32, y: u32, pixel: ColorL<C>) {
        proof {
            crate::arith::lemma_rowmajor_in_grid(x as int, y as int, width as int, height as int);
        }
        let offset_y = (y as usize) * (width as usize) + (x as usize);
        storage.set(offset_y, pixel.l);
    }

    proof fn lemma_black_size(width: u32, height: u32) {
    }

    proof fn lemma_put_len(s: Seq<C>, width: u32, height: u32, x: u32, y: u32, p: ColorL<C>) {
        crate::arith::lemma_rowmajor_in_grid(x as int, y as int, width as int, height as int);
    }

    proof fn lemma_get_put(s: Seq<C>, width: u32, height: u32, x: u32, y: u32, p: ColorL<C>) {
        crate::arith::lemma_rowmajor_in_grid(x as int, y as int, width as int, height as int);
    }

    proof fn lemma_put_preserves_other(
        s: Seq<C>,
        width: u32,
        height: u32,
        x: u32,
        y: u32,
        p: ColorL<C>,
        x2: u32,
        y2: u32,
    ) {
        crate::arith::lemma_rowmajor_in_grid(x as int, y as int, width as int, height as int);
        crate::arith::lemma_rowmajor_in_grid(x2 as int, y2 as int, width as int, height as int);
        crate::arith::lemma_rowmajor_injective(
            x as int,
            y as int,
            x2 as int,
            y2 as int,
            width as int,
            height as int,
        );
    }
}

} // verus!
