//! YUV 4:2:2 layouts: two elements per pixel on average, with each chroma
//! pair shared by a horizontal pair of luma samples. Width must be even.

use vstd::prelude::*;

use crate::arith;
use crate::colorspace::{Channel, ColorYUV as ColorYuv};
use crate::unified::{fill_pattern, fill_split, Format, PlanarFormat};

verus! {

/// Packed YUV 4:2:2: macropixels `[Y0 U Y1 V]`, so the pixel pair sharing
/// chroma starts at element `2 (y w + 2 (x / 2))`.
pub struct Yuv422;

/// Where the macropixel holding `(x, y)` begins.
pub open spec fn pair_base_422(width: u32, x: u32, y: u32) -> int {
    2 * (y * width + 2 * (x / 2))
}

impl<C: Channel> Format<C> for Yuv422 {
    type Pixel = ColorYuv<C>;

    open spec fn spec_valid_dims(width: u32, height: u32) -> bool {
        &&& width % 2 == 0
        &&& C::converts()
        &&& 2 * (width * height) <= usize::MAX
    }

    open spec fn spec_size(width: u32, height: u32) -> nat {
        (2 * (width * height)) as nat
    }

    open spec fn spec_black(width: u32, height: u32) -> Seq<C> {
        Seq::new(
            <Self as Format<C>>::spec_size(width, height),
            |i: int|
                if i % 2 == 0 {
                    C::spec_from_i32(0, 0, 2)
                } else {
                    C::spec_from_i32(1, 0, 2)
                },
        )
    }

    open spec fn spec_get(s: Seq<C>, width: u32, height: u32, x: u32, y: u32) -> ColorYuv<C> {
        ColorYuv {
            y: s[2 * (y * width + x)],
            u: s[pair_base_422(width, x, y) + 1],
            v: s[pair_base_422(width, x, y) + 3],
        }
    }

    open spec fn spec_put(s: Seq<C>, width: u32, height: u32, x: u32, y: u32, p: ColorYuv<C>) -> Seq<
        C,
    > {
        s.update(2 * (y * width + x), p.y).update(pair_base_422(width, x, y) + 1, p.u).update(
            pair_base_422(width, x, y) + 3,
            p.v,
        )
    }

    open spec fn pixel_independent() -> bool {
        false
    }

    fn channel_data_size(width: u32, height: u32) -> usize {
        2 * ((width as usize) * (height as usize))
    }

    fn init_black(width: u32, height: u32, storage: &mut Vec<C>) {
        let luma_min = C::from_i32(0, 0, 2);
        let chroma_neutral = C::from_i32(1, 0, 2);
        fill_pattern(storage, 2, luma_min, chroma_neutral);
        proof {
            assert(storage@ =~= <Self as Format<C>>::spec_black(width, height));
        }
    }

    fn get_pixel(storage: &Vec<C>, width: u32, height: u32, x: u32, y: u32) -> ColorYuv<C> {
        proof {
            arith::lemma_rowmajor_in_grid(x as int, y as int, width as int, height as int);
            arith::lemma_pair_base(x as int, width as int);
            arith::lemma_macropixel_bound(x as int, y as int, width as int, height as int);
        }
        let offset_y = 2 * ((y as usize) * (width as usize) + (x as usize));
        let pair = 2 * ((y as usize) * (width as usize) + 2 * ((x as usize) / 2));
        ColorYuv { y: storage[offset_y], u: storage[pair + 1], v: storage[pair + 3] }
    }

    fn put_pixel(storage: &mut Vec<C>, width: u32, height: u32, x: u32, y: u32, pixel: ColorYuv<C>) {
        proof {
            arith::lemma_rowmajor_in_grid(x as int, y as int, width as int, height as int);
            arith::lemma_pair_base(x as int, width as int);
            arith::lemma_macropixel_bound(x as int, y as int, width as int, height as int);
        }
        let offset_y = 2 * ((y as usize) * (width as usize) + (x as usize));
        let pair = 2 * ((y as usize) * (width as usize) + 2 * ((x as usize) / 2));
        storage.set(offset_y, pixel.y);
        storage.set(pair + 1, pixel.u);
        storage.set(pair + 3, pixel.v);
    }

    proof fn lemma_black_size(width: u32, height: u32) {
    }

    proof fn lemma_put_len(s: Seq<C>, width: u32, height: u32, x: u32, y: u32, p: ColorYuv<C>) {
        arith::lemma_rowmajor_in_grid(x as int, y as int, width as int, height as int);
        arith::lemma_pair_base(x as int, width as int);
        arith::lemma_macropixel_bound(x as int, y as int, width as int, height as int);
    }

    proof fn lemma_get_put(s: Seq<C>, width: u32, height: u32, x: u32, y: u32, p: ColorYuv<C>) {
        arith::lemma_rowmajor_in_grid(x as int, y as int, width as int, height as int);
        arith::lemma_pair_base(x as int, width as int);
        arith::lemma_macropixel_bound(x as int, y as int, width as int, height as int);
    }

    proof fn lemma_put_preserves_other(
        s: Seq<C>,
        width: u32,
        height: u32,
        x: u32,
        y: u32,
        p: ColorYuv<C>,
        x2: u32,
        y2: u32,
    ) {
    }
}

/// Planar YUV 4:2:2: a `w h` Y plane, then U and V planes of `w h / 2`
/// elements each; chroma offset `(y w + x) / 2`.
pub struct Yuv422p;

impl<C: Channel> Format<C> for Yuv422p {
    type Pixel = ColorYuv<C>;

    open spec fn spec_valid_dims(width: u32, height: u32) -> bool {
        &&& width % 2 == 0
        &&& C::converts()
        &&& 2 * (width * height) <= usize::MAX
    }

    open spec fn spec_size(width: u32, height: u32) -> nat {
        (2 * (width * height)) as nat
    }

    open spec fn spec_black(width: u32, height: u32) -> Seq<C> {
        Seq::new(
            <Self as Format<C>>::spec_size(width, height),
            |i: int|
                if i < width * height {
                    C::spec_from_i32(0, 0, 2)
                } else {
                    C::spec_from_i32(1, 0, 2)
                },
        )
    }

    open spec fn spec_get(s: Seq<C>, width: u32, height: u32, x: u32, y: u32) -> ColorYuv<C> {
        ColorYuv {
            y: s[y * width + x],
            u: s[width * height + (y * width + x) / 2],
            v: s[width * height + (width * height) / 2 + (y * width + x) / 2],
        }
    }

    open spec fn spec_put(s: Seq<C>, width: u32, height: u32, x: u32, y: u32, p: ColorYuv<C>) -> Seq<
        C,
    > {
        s.update(y * width + x, p.y).update(
            width * height + (y * width + x) / 2,
            p.u,
        ).update(width * height + (width * height) / 2 + (y * width + x) / 2, p.v)
    }

    open spec fn pixel_independent() -> bool {
        false
    }

    fn channel_data_size(width: u32, height: u32) -> usize {
        2 * ((width as usize) * (height as usize))
    }

    fn init_black(width: u32, height: u32, storage: &mut Vec<C>) {
        let luma_min = C::from_i32(0, 0, 2);
        let chroma_neutral = C::from_i32(1, 0, 2);
        let pixels = (width as usize) * (height as usize);
        fill_split(storage, pixels, luma_min, chroma_neutral);
        proof {
            assert(storage@ =~= <Self as Format<C>>::spec_black(width, height));
        }
    }

    fn get_pixel(storage: &Vec<C>, width: u32, height: u32, x: u32, y: u32) -> ColorYuv<C> {
        proof {
            arith::lemma_rowmajor_in_grid(x as int, y as int, width as int, height as int);
            arith::lemma_even_product(width as int, height as int);
            arith::lemma_div_le(
                (y * width + x) as int,
                (width * height) as int - 1,
                2,
            );
        }
        let pixels = (width as usize) * (height as usize);
        let inplane = (y as usize) * (width as usize) + (x as usize);
        ColorYuv {
            y: storage[inplane],
            u: storage[pixels + inplane / 2],
            v: storage[pixels + pixels / 2 + inplane / 2],
        }
    }

    fn put_pixel(storage: &mut Vec<C>, width: u32, height: u32, x: u32, y: u32, pixel: ColorYuv<C>) {
        proof {
            arith::lemma_rowmajor_in_grid(x as int, y as int, width as int, height as int);
            arith::lemma_even_product(width as int, height as int);
            arith::lemma_div_le(
                (y * width + x) as int,
                (width * height) as int - 1,
                2,
            );
        }
        let pixels = (width as usize) * (height as usize);
        let inplane = (y as usize) * (width as usize) + (x as usize);
        storage.set(inplane, pixel.y);
        storage.set(pixels + inplane / 2, pixel.u);
        storage.set(pixels + pixels / 2 + inplane / 2, pixel.v);
    }

    proof fn lemma_black_size(width: u32, height: u32) {
    }

    proof fn lemma_put_len(s: Seq<C>, width: u32, height: u32, x: u32, y: u32, p: ColorYuv<C>) {
        arith::lemma_rowmajor_in_grid(x as int, y as int, width as int, height as int);
        arith::lemma_even_product(width as int, height as int);
        arith::lemma_div_le((y * width + x) as int, (width * height) as int - 1, 2);
    }

    proof fn lemma_get_put(s: Seq<C>, width: u32, height: u32, x: u32, y: u32, p: ColorYuv<C>) {
        arith::lemma_rowmajor_in_grid(x as int, y as int, width as int, height as int);
        arith::lemma_even_product(width as int, height as int);
        arith::lemma_div_le((y * width + x) as int, (width * height) as int - 1, 2);
    }

    proof fn lemma_put_preserves_other(
        s: Seq<C>,
        width: u32,
        height: u32,
        x: u32,
        y: u32,
        p: ColorYuv<C>,
        x2: u32,
        y2: u32,
    ) {
    }
}

impl<C: Channel> PlanarFormat<C> for Yuv422p {
    open spec fn spec_planes(s: Seq<C>, width: u32, height: u32) -> (Seq<C>, Seq<C>, Seq<C>) {
        (
            s.subrange(0, width * height),
            s.subrange(width * height, width * height + (width * height) / 2),
            s.subrange(
                width * height + (width * height) / 2,
                width * height + (width * height) / 2 + (width * height) / 2,
            ),
        )
    }

    fn get_planes(data: &Vec<C>, wh: (u32, u32)) -> (r: (&[C], &[C], &[C])) {
        proof {
            arith::lemma_even_product(wh.0 as int, wh.1 as int);
        }
        let pixels = (wh.0 as usize) * (wh.1 as usize);
        let y_plane = vstd::slice::slice_subrange(data.as_slice(), 0, pixels);
        let u_plane = vstd::slice::slice_subrange(data.as_slice(), pixels, pixels + pixels / 2);
        let v_plane = vstd::slice::slice_subrange(
            data.as_slice(),
            pixels + pixels / 2,
            pixels + pixels / 2 + pixels / 2,
        );
        (y_plane, u_plane, v_plane)
    }
}

} // verus!
