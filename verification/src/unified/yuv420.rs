//! Planar YUV 4:2:0: a full-resolution Y plane and two chroma planes
//! subsampled by two in both dimensions.

use vstd::prelude::*;

use crate::arith;
use crate::colorspace::{Channel, ColorYUV as ColorYuv};
use crate::unified::{fill_split, Format, PlanarFormat};

verus! {

/// Planar YUV 4:2:0: Y plane of `w h` elements, then U and V planes of
/// `w h / 4` elements each, with chroma stride `w / 2`. Width and height
/// must be even.
pub struct Yuv420p;

/// The in-plane offset of the chroma sample shared by the four pixels around
/// `(x, y)`.
pub open spec fn chroma_offset_420(width: u32, x: u32, y: u32) -> int {
    (y / 2) * (width / 2) + x / 2
}

/// The Y plane: the first `pixels` elements of a 4:2:0 buffer.
pub fn get_y<C>(data: &[C], pixels: usize) -> (r: &[C])
    requires
        pixels <= data@.len(),
    ensures
        r@ == data@.subrange(0, pixels as int),
{
    vstd::slice::slice_subrange(data, 0, pixels)
}

/// The U plane: `pixels / 4` elements after the Y plane.
pub fn get_u<C>(data: &[C], pixels: usize) -> (r: &[C])
    requires
        pixels + pixels / 4 <= data@.len(),
    ensures
        r@ == data@.subrange(pixels as int, pixels as int + pixels as int / 4),
{
    let n = data.len();
    vstd::slice::slice_subrange(data, pixels, pixels + pixels / 4)
}

/// The V plane: the `pixels / 4` elements after the U plane.
pub fn get_v<C>(data: &[C], pixels: usize) -> (r: &[C])
    requires
        pixels + pixels / 4 + pixels / 4 <= data@.len(),
    ensures
        r@ == data@.subrange(
            pixels as int + pixels as int / 4,
            pixels as int + pixels as int / 4 + pixels as int / 4,
        ),
{
    let n = data.len();
    vstd::slice::slice_subrange(data, pixels + pixels / 4, pixels + pixels / 4 + pixels / 4)
}

impl<C: Channel> Format<C> for Yuv420p {
    type Pixel = ColorYuv<C>;

    open spec fn spec_valid_dims(width: u32, height: u32) -> bool {
        &&& width % 2 == 0
        &&& height % 2 == 0
        &&& C::converts()
        &&& 3 * (width * height) / 2 <= usize::MAX
    }

    open spec fn spec_size(width: u32, height: u32) -> nat {
        (3 * (width * height) / 2) as nat
    }

    open spec fn spec_black(width: u32, height: u32) -> Seq<C> {
        Seq::new(
            <Self as Format<C>>::spec_size(width, height),
            |i: int|
                if i < width * height {
                    C::spec_from_i32(0, 0, 2)
                } else {
                    C::spec_from_i32(1, 0, 2)
                },
        )
    }

    open spec fn spec_get(s: Seq<C>, width: u32, height: u32, x: u32, y: u32) -> ColorYuv<C> {
        ColorYuv {
            y: s[y * width + x],
            u: s[width * height + chroma_offset_420(width, x, y)],
            v: s[width * height + (width * height) / 4 + chroma_offset_420(width, x, y)],
        }
    }

    open spec fn spec_put(s: Seq<C>, width: u32, height: u32, x: u32, y: u32, p: ColorYuv<C>) -> Seq<
        C,
    > {
        s.update(y * width + x, p.y).update(
            width * height + chroma_offset_420(width, x, y),
            p.u,
        ).update(width * height + (width * height) / 4 + chroma_offset_420(width, x, y), p.v)
    }

    open spec fn pixel_independent() -> bool {
        false
    }

    fn channel_data_size(width: u32, height: u32) -> usize {
        let pixels = (width as usize) * (height as usize);
        proof {
            arith::lemma_even_halves(width as int, height as int);
            arith::lemma_quarter_sum((width * height) as int);
        }
        pixels + pixels / 4 + pixels / 4
    }

    fn init_black(width: u32, height: u32, storage: &mut Vec<C>) {
        let luma_min = C::from_i32(0, 0, 2);
        let chroma_neutral = C::from_i32(1, 0, 2);
        proof {
            arith::lemma_even_halves(width as int, height as int);
            arith::lemma_quarter_sum((width * height) as int);
        }
        let pixels = (width as usize) * (height as usize);
        fill_split(storage, pixels, luma_min, chroma_neutral);
        proof {
            assert(storage@ =~= <Self as Format<C>>::spec_black(width, height));
        }
    }

    fn get_pixel(storage: &Vec<C>, width: u32, height: u32, x: u32, y: u32) -> ColorYuv<C> {
        proof {
            arith::lemma_rowmajor_in_grid(x as int, y as int, width as int, height as int);
            arith::lemma_rowmajor_in_grid(
                x as int / 2,
                y as int / 2,
                width as int / 2,
                height as int / 2,
            );
            arith::lemma_even_halves(width as int, height as int);
            arith::lemma_quarter_sum((width * height) as int);
        }
        let pixels = (width as usize) * (height as usize);
        let offset_y = (y as usize) * (width as usize) + (x as usize);
        let offset_c = ((y / 2) as usize) * ((width / 2) as usize) + ((x / 2) as usize);
        ColorYuv {
            y: storage[offset_y],
            u: storage[pixels + offset_c],
            v: storage[pixels + pixels / 4 + offset_c],
        }
    }

    fn put_pixel(storage: &mut Vec<C>, width: u32, height: u32, x: u32, y: u32, pixel: ColorYuv<C>) {
        proof {
            arith::lemma_rowmajor_in_grid(x as int, y as int, width as int, height as int);
            arith::lemma_rowmajor_in_grid(
                x as int / 2,
                y as int / 2,
                width as int / 2,
                height as int / 2,
            );
            arith::lemma_even_halves(width as int, height as int);
            arith::lemma_quarter_sum((width * height) as int);
        }
        let pixels = (width as usize) * (height as usize);
        let offset_y = (y as usize) * (width as usize) + (x as usize);
        let offset_c = ((y / 2) as usize) * ((width / 2) as usize) + ((x / 2) as usize);
        storage.set(offset_y, pixel.y);
        storage.set(pixels + offset_c, pixel.u);
        storage.set(pixels + pixels / 4 + offset_c, pixel.v);
    }

    proof fn lemma_black_size(width: u32, height: u32) {
    }

    proof fn lemma_put_len(s: Seq<C>, width: u32, height: u32, x: u32, y: u32, p: ColorYuv<C>) {
        arith::lemma_rowmajor_in_grid(x as int, y as int, width as int, height as int);
        arith::lemma_rowmajor_in_grid(
            x as int / 2,
            y as int / 2,
            width as int / 2,
            height as int / 2,
        );
        arith::lemma_even_halves(width as int, height as int);
        arith::lemma_quarter_sum((width * height) as int);
    }

    proof fn lemma_get_put(s: Seq<C>, width: u32, height: u32, x: u32, y: u32, p: ColorYuv<C>) {
        arith::lemma_rowmajor_in_grid(x as int, y as int, width as int, height as int);
        arith::lemma_rowmajor_in_grid(
            x as int / 2,
            y as int / 2,
            width as int / 2,
            height as int / 2,
        );
        arith::lemma_even_halves(width as int, height as int);
        arith::lemma_quarter_sum((width * height) as int);
    }

    proof fn lemma_put_preserves_other(
        s: Seq<C>,
        width: u32,
        height: u32,
        x: u32,
        y: u32,
        p: ColorYuv<C>,
        x2: u32,
        y2: u32,
    ) {
    }
}

impl<C: Channel> PlanarFormat<C> for Yuv420p {
    open spec fn spec_planes(s: Seq<C>, width: u32, height: u32) -> (Seq<C>, Seq<C>, Seq<C>) {
        (
            s.subrange(0, width * height),
            s.subrange(width * height, width * height + (width * height) / 4),
            s.subrange(
                width * height + (width * height) / 4,
                width * height + (width * height) / 4 + (width * height) / 4,
            ),
        )
    }

    fn get_planes(data: &Vec<C>, wh: (u32, u32)) -> (r: (&[C], &[C], &[C])) {
        proof {
            arith::lemma_even_halves(wh.0 as int, wh.1 as int);
            arith::lemma_quarter_sum((wh.0 * wh.1) as int);
        }
        let pixels = (wh.0 as usize) * (wh.1 as usize);
        let y_plane = get_y(data.as_slice(), pixels);
        let u_plane = get_u(data.as_slice(), pixels);
        let v_plane = get_v(data.as_slice(), pixels);
        (y_plane, u_plane, v_plane)
    }
}

} // verus!
