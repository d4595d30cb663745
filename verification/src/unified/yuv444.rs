//! Full-resolution YUV layouts, packed and planar. "Black" in YUV is zero
//! luma with neutral (achromatic) chroma: the channel value standing for 1
//! inside `[0, 2]`, the channel's midpoint.

use vstd::prelude::*;

use crate::arith;
use crate::colorspace::{Channel, ColorYUV as ColorYuv};
use crate::unified::{fill_pattern, fill_split, Format, PlanarFormat};

verus! {

/// Packed YUV 4:4:4: interleaved Y, U, V triples, stride 3, chroma at full
/// resolution.
pub struct Yuv444;

impl<C: Channel> Format<C> for Yuv444 {
    type Pixel = ColorYuv<C>;

    open spec fn spec_valid_dims(width: u32, height: u32) -> bool {
        C::converts() && 3 * (width * height) <= usize::MAX
    }

    open spec fn spec_size(width: u32, height: u32) -> nat {
        (3 * (width * height)) as nat
    }

    open spec fn spec_black(width: u32, height: u32) -> Seq<C> {
        Seq::new(
            <Self as Format<C>>::spec_size(width, height),
            |i: int|
                if i % 3 == 0 {
                    C::spec_from_i32(0, 0, 2)
                } else {
                    C::spec_from_i32(1, 0, 2)
                },
        )
    }

    open spec fn spec_get(s: Seq<C>, width: u32, height: u32, x: u32, y: u32) -> ColorYuv<C> {
        ColorYuv {
            y: s[3 * (y * width + x)],
            u: s[3 * (y * width + x) + 1],
            v: s[3 * (y * width + x) + 2],
        }
    }

    open spec fn spec_put(s: Seq<C>, width: u32, height: u32, x: u32, y: u32, p: ColorYuv<C>) -> Seq<
        C,
    > {
        s.update(3 * (y * width + x), p.y).update(3 * (y * width + x) + 1, p.u).update(
            3 * (y * width + x) + 2,
            p.v,
        )
    }

    open spec fn pixel_independent() -> bool {
        true
    }

    fn channel_data_size(width: u32, height: u32) -> usize {
        3 * ((width as usize) * (height as usize))
    }

    fn init_black(width: u32, height: u32, storage: &mut Vec<C>) {
        let luma_min = C::from_i32(0, 0, 2);
        let chroma_neutral = C::from_i32(1, 0, 2);
        fill_pattern(storage, 3, luma_min, chroma_neutral);
        proof {
            assert(storage@ =~= <Self as Format<C>>::spec_black(width, height));
        }
    }

    fn get_pixel(storage: &Vec<C>, width: u32, height: u32, x: u32, y: u32) -> ColorYuv<C> {
        proof {
            arith::lemma_rowmajor_in_grid(x as int, y as int, width as int, height as int);
        }
        let offset = 3 * ((y as usize) * (width as usize) + (x as usize));
        ColorYuv { y: storage[offset], u: storage[offset + 1], v: storage[offset + 2] }
    }

    fn put_pixel(storage: &mut Vec<C>, width: u32, height: u32, x: u32, y: u32, pixel: ColorYuv<C>) {
        proof {
            arith::lemma_rowmajor_in_grid(x as int, y as int, width as int, height as int);
        }
        let offset = 3 * ((y as usize) * (width as usize) + (x as usize));
        storage.set(offset, pixel.y);
        storage.set(offset + 1, pixel.u);
        storage.set(offset + 2, pixel.v);
    }

    proof fn lemma_black_size(width: u32, height: u32) {
    }

    proof fn lemma_put_len(s: Seq<C>, width: u32, height: u32, x: u32, y: u32, p: ColorYuv<C>) {
        arith::lemma_rowmajor_in_grid(x as int, y as int, width as int, height as int);
    }

    proof fn lemma_get_put(s: Seq<C>, width: u32, height: u32, x: u32, y: u32, p: ColorYuv<C>) {
        arith::lemma_rowmajor_in_grid(x as int, y as int, width as int, height as int);
    }

    proof fn lemma_put_preserves_other(
        s: Seq<C>,
        width: u32,
        height: u32,
        x: u32,
        y: u32,
        p: ColorYuv<C>,
        x2: u32,
        y2: u32,
    ) {
        arith::lemma_rowmajor_in_grid(x as int, y as int, width as int, height as int);
        arith::lemma_rowmajor_in_grid(x2 as int, y2 as int, width as int, height as int);
        arith::lemma_rowmajor_injective(
            x as int,
            y as int,
            x2 as int,
            y2 as int,
            width as int,
            height as int,
        );
        arith::lemma_strided_distinct(
            3,
            y * width + x,
            y2 * width + x2,
            (width * height) as int,
        );
    }
}

/// Planar YUV 4:4:4: three contiguous `w h` planes in the order Y, U, V.
pub struct Yuv444p;

impl<C: Channel> Format<C> for Yuv444p {
    type Pixel = ColorYuv<C>;

    open spec fn spec_valid_dims(width: u32, height: u32) -> bool {
        C::converts() && 3 * (width * height) <= usize::MAX
    }

    open spec fn spec_size(width: u32, height: u32) -> nat {
        (3 * (width * height)) as nat
    }

    open spec fn spec_black(width: u32, height: u32) -> Seq<C> {
        Seq::new(
            <Self as Format<C>>::spec_size(width, height),
            |i: int|
                if i < width * height {
                    C::spec_from_i32(0, 0, 2)
                } else {
                    C::spec_from_i32(1, 0, 2)
                },
        )
    }

    open spec fn spec_get(s: Seq<C>, width: u32, height: u32, x: u32, y: u32) -> ColorYuv<C> {
        ColorYuv {
            y: s[y * width + x],
            u: s[width * height + (y * width + x)],
            v: s[2 * (width * height) + (y * width + x)],
        }
    }

    open spec fn spec_put(s: Seq<C>, width: u32, height: u32, x: u32, y: u32, p: ColorYuv<C>) -> Seq<
        C,
    > {
        s.update(y * width + x, p.y).update(width * height + (y * width + x), p.u).update(
            2 * (width * height) + (y * width + x),
            p.v,
        )
    }

    open spec fn pixel_independent() -> bool {
        true
    }

    fn channel_data_size(width: u32, height: u32) -> usize {
        3 * ((width as usize) * (height as usize))
    }

    fn init_black(width: u32, height: u32, storage: &mut Vec<C>) {
        let luma_min = C::from_i32(0, 0, 2);
        let chroma_neutral = C::from_i32(1, 0, 2);
        let pixels = (width as usize) * (height as usize);
        fill_split(storage, pixels, luma_min, chroma_neutral);
        proof {
            assert(storage@ =~= <Self as Format<C>>::spec_black(width, height));
        }
    }

    fn get_pixel(storage: &Vec<C>, width: u32, height: u32, x: u32, y: u32) -> ColorYuv<C> {
        proof {
            arith::lemma_rowmajor_in_grid(x as int, y as int, width as int, height as int);
        }
        let pixels = (width as usize) * (height as usize);
        let inplane = (y as usize) * (width as usize) + (x as usize);
        ColorYuv {
            y: storage[inplane],
            u: storage[pixels + inplane],
            v: storage[2 * pixels + inplane],
        }
    }

    fn put_pixel(storage: &mut Vec<C>, width: u32, height: u32, x: u32, y: u32, pixel: ColorYuv<C>) {
        proof {
            arith::lemma_rowmajor_in_grid(x as int, y as int, width as int, height as int);
        }
        let pixels = (width as usize) * (height as usize);
        let inplane = (y as usize) * (width as usize) + (x as usize);
        storage.set(inplane, pixel.y);
        storage.set(pixels + inplane, pixel.u);
        storage.set(2 * pixels + inplane, pixel.v);
    }

    proof fn lemma_black_size(width: u32, height: u32) {
    }

    proof fn lemma_put_len(s: Seq<C>, width: u32, height: u32, x: u32, y: u32, p: ColorYuv<C>) {
        arith::lemma_rowmajor_in_grid(x as int, y as int, width as int, height as int);
    }

    proof fn lemma_get_put(s: Seq<C>, width: u32, height: u32, x: u32, y: u32, p: ColorYuv<C>) {
        arith::lemma_rowmajor_in_grid(x as int, y as int, width as int, height as int);
    }

    proof fn lemma_put_preserves_other(
        s: Seq<C>,
        width: u32,
        height: u32,
        x: u32,
        y: u32,
        p: ColorYuv<C>,
        x2: u32,
        y2: u32,
    ) {
        arith::lemma_rowmajor_in_grid(x as int, y as int, width as int, height as int);
        arith::lemma_rowmajor_in_grid(x2 as int, y2 as int, width as int, height as int);
        let o1 = y * width + x;
        let o2 = y2 * width + x2;
        let wh = (width * height) as int;
        arith::lemma_rowmajor_injective(
            x as int,
            y as int,
            x2 as int,
            y2 as int,
            width as int,
            height as int,
        );
        assert forall|k1: int, k2: int|
            0 <= k1 < 3 && 0 <= k2 < 3 implies #[trigger] (k1 * wh + o1) != #[trigger] (
        k2 * wh + o2) by {
            arith::lemma_rowmajor_injective(o1 as int, k1, o2 as int, k2, wh, 3);
        }
    }
}

impl<C: Channel> PlanarFormat<C> for Yuv444p {
    open spec fn spec_planes(s: Seq<C>, width: u32, height: u32) -> (Seq<C>, Seq<C>, Seq<C>) {
        (
            s.subrange(0, width * height),
            s.subrange(width * height, 2 * (width * height)),
            s.subrange(2 * (width * height), 3 * (width * height)),
        )
    }

    fn get_planes(data: &Vec<C>, wh: (u32, u32)) -> (r: (&[C], &[C], &[C])) {
        let pixels = (wh.0 as usize) * (wh.1 as usize);
        let y_plane = vstd::slice::slice_subrange(data.as_slice(), 0, pixels);
        let u_plane = vstd::slice::slice_subrange(data.as_slice(), pixels, 2 * pixels);
        let v_plane = vstd::slice::slice_subrange(data.as_slice(), 2 * pixels, 3 * pixels);
        (y_plane, u_plane, v_plane)
    }
}

} // verus!
