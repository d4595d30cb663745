//! RGB and RGBA layouts, packed (interleaved) and planar.

use vstd::prelude::*;

use crate::arith;
use crate::colorspace::{Channel, ColorRGB as ColorRgb, ColorRGBA as ColorRgba};
use crate::unified::{fill_split, Format};

verus! {

/// Packed RGB: pixel `(x, y)` occupies elements `[3 (y w + x) .. +3)` in the
/// order R, G, B.
pub struct Rgb;

impl<C: Channel> Format<C> for Rgb {
    type Pixel = ColorRgb<C>;

    open spec fn spec_valid_dims(width: u32, height: u32) -> bool {
        3 * (width * height) <= usize::MAX
    }

    open spec fn spec_size(width: u32, height: u32) -> nat {
        (3 * (width * height)) as nat
    }

    open spec fn spec_black(width: u32, height: u32) -> Seq<C> {
        Seq::new(<Self as Format<C>>::spec_size(width, height), |i: int| C::spec_min())
    }

    open spec fn spec_get(s: Seq<C>, width: u32, height: u32, x: u32, y: u32) -> ColorRgb<C> {
        ColorRgb {
            r: s[3 * (y * width + x)],
            g: s[3 * (y * width + x) + 1],
            b: s[3 * (y * width + x) + 2],
        }
    }

    open spec fn spec_put(s: Seq<C>, width: u32, height: u32, x: u32, y: u32, p: ColorRgb<C>) -> Seq<
        C,
    > {
        s.update(3 * (y * width + x), p.r).update(3 * (y * width + x) + 1, p.g).update(
            3 * (y * width + x) + 2,
            p.b,
        )
    }

    open spec fn pixel_independent() -> bool {
        true
    }

    fn channel_data_size(width: u32, height: u32) -> usize {
        3 * ((width as usize) * (height as usize))
    }

    fn init_black(width: u32, height: u32, storage: &mut Vec<C>) {
        let ch_min = C::min_value();
        let n = storage.len();
        fill_split(storage, n, ch_min, ch_min);
        proof {
            assert(storage@ =~= <Self as Format<C>>::spec_black(width, height));
        }
    }

    fn get_pixel(storage: &Vec<C>, width: u32, height: u32, x: u32, y: u32) -> ColorRgb<C> {
        proof {
            arith::lemma_rowmajor_in_grid(x as int, y as int, width as int, height as int);
        }
        let offset = 3 * ((y as usize) * (width as usize) + (x as usize));
        ColorRgb { r: storage[offset], g: storage[offset + 1], b: storage[offset + 2] }
    }

    fn put_pixel(storage: &mut Vec<C>, width: u32, height: u32, x: u32, y: u32, pixel: ColorRgb<C>) {
        proof {
            arith::lemma_rowmajor_in_grid(x as int, y as int, width as int, height as int);
        }
        let offset = 3 * ((y as usize) * (width as usize) + (x as usize));
        storage.set(offset, pixel.r);
        storage.set(offset + 1, pixel.g);
        storage.set(offset + 2, pixel.b);
    }

    proof fn lemma_black_size(width: u32, height: u32) {
    }

    proof fn lemma_put_len(s: Seq<C>, width: u32, height: u32, x: u32, y: u32, p: ColorRgb<C>) {
        arith::lemma_rowmajor_in_grid(x as int, y as int, width as int, height as int);
    }

    proof fn lemma_get_put(s: Seq<C>, width: u32, height: u32, x: u32, y: u32, p: ColorRgb<C>) {
        arith::lemma_rowmajor_in_grid(x as int, y as int, width as int, height as int);
    }

    proof fn lemma_put_preserves_other(
        s: Seq<C>,
        width: u32,
        height: u32,
        x: u32,
        y: u32,
        p: ColorRgb<C>,
        x2: u32,
        y2: u32,
    ) {
        arith::lemma_rowmajor_in_grid(x as int, y as int, width as int, height as int);
        arith::lemma_rowmajor_in_grid(x2 as int, y2 as int, width as int, height as int);
        arith::lemma_rowmajor_injective(
            x as int,
            y as int,
            x2 as int,
            y2 as int,
            width as int,
            height as int,
        );
        arith::lemma_strided_distinct(
            3,
            y * width + x,
            y2 * width + x2,
            (width * height) as int,
        );
    }
}

/// Packed RGBA: pixel `(x, y)` occupies elements `[4 (y w + x) .. +4)` in the
/// order R, G, B, A.
pub struct Rgba;

impl<C: Channel> Format<C> for Rgba {
    type Pixel = ColorRgba<C>;

    open spec fn spec_valid_dims(width: u32, height: u32) -> bool {
        4 * (width * height) <= usize::MAX
    }

    open spec fn spec_size(width: u32, height: u32) -> nat {
        (4 * (width * height)) as nat
    }

    open spec fn spec_black(width: u32, height: u32) -> Seq<C> {
        Seq::new(<Self as Format<C>>::spec_size(width, height), |i: int| C::spec_min())
    }

    open spec fn spec_get(s: Seq<C>, width: u32, height: u32, x: u32, y: u32) -> ColorRgba<C> {
        ColorRgba {
            r: s[4 * (y * width + x)],
            g: s[4 * (y * width + x) + 1],
            b: s[4 * (y * width + x) + 2],
            a: s[4 * (y * width + x) + 3],
        }
    }

    open spec fn spec_put(
        s: Seq<C>,
        width: u32,
        height: u32,
        x: u32,
        y: u32,
        p: ColorRgba<C>,
    ) -> Seq<C> {
        s.update(4 * (y * width + x), p.r).update(4 * (y * width + x) + 1, p.g).update(
            4 * (y * width + x) + 2,
            p.b,
        ).update(4 * (y * width + x) + 3, p.a)
    }

    open spec fn pixel_independent() -> bool {
        true
    }

    fn channel_data_size(width: u32, height: u32) -> usize {
        4 * ((width as usize) * (height as usize))
    }

    fn init_black(width: u32, height: u32, storage: &mut Vec<C>) {
        let ch_min = C::min_value();
        let n = storage.len();
        fill_split(storage, n, ch_min, ch_min);
        proof {
            assert(storage@ =~= <Self as Format<C>>::spec_black(width, height));
        }
    }

    fn get_pixel(storage: &Vec<C>, width: u32, height: u32, x: u32, y: u32) -> ColorRgba<C> {
        proof {
            arith::lemma_rowmajor_in_grid(x as int, y as int, width as int, height as int);
        }
        let offset = 4 * ((y as usize) * (width as usize) + (x as usize));
        ColorRgba {
            r: storage[offset],
            g: storage[offset + 1],
            b: storage[offset + 2],
            a: storage[offset + 3],
        }
    }

    fn put_pixel(
        storage: &mut Vec<C>,
        width: u32,
        height: u32,
        x: u32,
        y: u32,
        pixel: ColorRgba<C>,
    ) {
        proof {
            arith::lemma_rowmajor_in_grid(x as int, y as int, width as int, height as int);
        }
        let offset = 4 * ((y as usize) * (width as usize) + (x as usize));
        storage.set(offset, pixel.r);
        storage.set(offset + 1, pixel.g);
        storage.set(offset + 2, pixel.b);
        storage.set(offset + 3, pixel.a);
    }

    proof fn lemma_black_size(width: u32, height: u32) {
    }

    proof fn lemma_put_len(s: Seq<C>, width: u32, height: u32, x: u32, y: u32, p: ColorRgba<C>) {
        arith::lemma_rowmajor_in_grid(x as int, y as int, width as int, height as int);
    }

    proof fn lemma_get_put(s: Seq<C>, width: u32, height: u32, x: u32, y: u32, p: ColorRgba<C>) {
        arith::lemma_rowmajor_in_grid(x as int, y as int, width as int, height as int);
    }

    proof fn lemma_put_preserves_other(
        s: Seq<C>,
        width: u32,
        height: u32,
        x: u32,
        y: u32,
        p: ColorRgba<C>,
        x2: u32,
        y2: u32,
    ) {
        arith::lemma_rowmajor_in_grid(x as int, y as int, width as int, height as int);
        arith::lemma_rowmajor_in_grid(x2 as int, y2 as int, width as int, height as int);
        arith::lemma_rowmajor_injective(
            x as int,
            y as int,
            x2 as int,
            y2 as int,
            width as int,
            height as int,
        );
        arith::lemma_strided_distinct(
            4,
            y * width + x,
            y2 * width + x2,
            (width * height) as int,
        );
    }
}

/// Planar RGB: three contiguous `w h` planes in the order R, G, B; pixel
/// `(x, y)` reads element `k (w h) + (y w + x)` of plane `k`.
pub struct RgbPlanar;

impl<C: Channel> Format<C> for RgbPlanar {
    type Pixel = ColorRgb<C>;

    open spec fn spec_valid_dims(width: u32, height: u32) -> bool {
        3 * (width * height) <= usize::MAX
    }

    open spec fn spec_size(width: u32, height: u32) -> nat {
        (3 * (width * height)) as nat
    }

    open spec fn spec_black(width: u32, height: u32) -> Seq<C> {
        Seq::new(<Self as Format<C>>::spec_size(width, height), |i: int| C::spec_min())
    }

    open spec fn spec_get(s: Seq<C>, width: u32, height: u32, x: u32, y: u32) -> ColorRgb<C> {
        ColorRgb {
            r: s[y * width + x],
            g: s[width * height + (y * width + x)],
            b: s[2 * (width * height) + (y * width + x)],
        }
    }

    open spec fn spec_put(s: Seq<C>, width: u32, height: u32, x: u32, y: u32, p: ColorRgb<C>) -> Seq<
        C,
    > {
        s.update(y * width + x, p.r).update(width * height + (y * width + x), p.g).update(
            2 * (width * height) + (y * width + x),
            p.b,
        )
    }

    open spec fn pixel_independent() -> bool {
        true
    }

    fn channel_data_size(width: u32, height: u32) -> usize {
        3 * ((width as usize) * (height as usize))
    }

    fn init_black(width: u32, height: u32, storage: &mut Vec<C>) {
        let ch_min = C::min_value();
        let n = storage.len();
        fill_split(storage, n, ch_min, ch_min);
        proof {
            assert(storage@ =~= <Self as Format<C>>::spec_black(width, height));
        }
    }

    fn get_pixel(storage: &Vec<C>, width: u32, height: u32, x: u32, y: u32) -> ColorRgb<C> {
        proof {
            arith::lemma_rowmajor_in_grid(x as int, y as int, width as int, height as int);
        }
        let pixels = (width as usize) * (height as usize);
        let inplane = (y as usize) * (width as usize) + (x as usize);
        ColorRgb {
            r: storage[inplane],
            g: storage[pixels + inplane],
            b: storage[2 * pixels + inplane],
        }
    }

    fn put_pixel(storage: &mut Vec<C>, width: u32, height: u32, x: u32, y: u32, pixel: ColorRgb<C>) {
        proof {
            arith::lemma_rowmajor_in_grid(x as int, y as int, width as int, height as int);
        }
        let pixels = (width as usize) * (height as usize);
        let inplane = (y as usize) * (width as usize) + (x as usize);
        storage.set(inplane, pixel.r);
        storage.set(pixels + inplane, pixel.g);
        storage.set(2 * pixels + inplane, pixel.b);
    }

    proof fn lemma_black_size(width: u32, height: u32) {
    }

    proof fn lemma_put_len(s: Seq<C>, width: u32, height: u32, x: u32, y: u32, p: ColorRgb<C>) {
        arith::lemma_rowmajor_in_grid(x as int, y as int, width as int, height as int);
    }

    proof fn lemma_get_put(s: Seq<C>, width: u32, height: u32, x: u32, y: u32, p: ColorRgb<C>) {
        arith::lemma_rowmajor_in_grid(x as int, y as int, width as int, height as int);
    }

    proof fn lemma_put_preserves_other(
        s: Seq<C>,
        width: u32,
        height: u32,
        x: u32,
        y: u32,
        p: ColorRgb<C>,
        x2: u32,
        y2: u32,
    ) {
        arith::lemma_rowmajor_in_grid(x as int, y as int, width as int, height as int);
        arith::lemma_rowmajor_in_grid(x2 as int, y2 as int, width as int, height as int);
        let o1 = y * width + x;
        let o2 = y2 * width + x2;
        let wh = (width * height) as int;
        arith::lemma_rowmajor_injective(
            x as int,
            y as int,
            x2 as int,
            y2 as int,
            width as int,
            height as int,
        );
        assert forall|k1: int, k2: int|
            0 <= k1 < 3 && 0 <= k2 < 3 implies #[trigger] (k1 * wh + o1) != #[trigger] (
        k2 * wh + o2) by {
            arith::lemma_rowmajor_injective(o1 as int, k1, o2 as int, k2, wh, 3);
        }
    }
}

/// Planar RGBA: four contiguous `w h` planes in the order R, G, B, A.
pub struct RgbaPlanar;

impl<C: Channel> Format<C> for RgbaPlanar {
    type Pixel = ColorRgba<C>;

    open spec fn spec_valid_dims(width: u32, height: u32) -> bool {
        4 * (width * height) <= usize::MAX
    }

    open spec fn spec_size(width: u32, height: u32) -> nat {
        (4 * (width * height)) as nat
    }

    open spec fn spec_black(width: u32, height: u32) -> Seq<C> {
        Seq::new(<Self as Format<C>>::spec_size(width, height), |i: int| C::spec_min())
    }

    open spec fn spec_get(s: Seq<C>, width: u32, height: u32, x: u32, y: u32) -> ColorRgba<C> {
        ColorRgba {
            r: s[y * width + x],
            g: s[width * height + (y * width + x)],
            b: s[2 * (width * height) + (y * width + x)],
            a: s[3 * (width * height) + (y * width + x)],
        }
    }

    open spec fn spec_put(
        s: Seq<C>,
        width: u32,
        height: u32,
        x: u32,
        y: u32,
        p: ColorRgba<C>,
    ) -> Seq<C> {
        s.update(y * width + x, p.r).update(width * height + (y * width + x), p.g).update(
            2 * (width * height) + (y * width + x),
            p.b,
        ).update(3 * (width * height) + (y * width + x), p.a)
    }

    open spec fn pixel_independent() -> bool {
        true
    }

    fn channel_data_size(width: u32, height: u32) -> usize {
        4 * ((width as usize) * (height as usize))
    }

    fn init_black(width: u32, height: u32, storage: &mut Vec<C>) {
        let ch_min = C::min_value();
        let n = storage.len();
        fill_split(storage, n, ch_min, ch_min);
        proof {
            assert(storage@ =~= <Self as Format<C>>::spec_black(width, height));
        }
    }

    fn get_pixel(storage: &Vec<C>, width: u32, height: u32, x: u32, y: u32) -> ColorRgba<C> {
        proof {
            arith::lemma_rowmajor_in_grid(x as int, y as int, width as int, height as int);
        }
        let pixels = (width as usize) * (height as usize);
        let inplane = (y as usize) * (width as usize) + (x as usize);
        ColorRgba {
            r: storage[inplane],
            g: storage[pixels + inplane],
            b: storage[2 * pixels + inplane],
            a: storage[3 * pixels + inplane],
        }
    }

    fn put_pixel(
        storage: &mut Vec<C>,
        width: u32,
        height: u32,
        x: u32,
        y: u32,
        pixel: ColorRgba<C>,
    ) {
        proof {
            arith::lemma_rowmajor_in_grid(x as int, y as int, width as int, height as int);
        }
        let pixels = (width as usize) * (height as usize);
        let inplane = (y as usize) * (width as usize) + (x as usize);
        storage.set(inplane, pixel.r);
        storage.set(pixels + inplane, pixel.g);
        storage.set(2 * pixels + inplane, pixel.b);
        storage.set(3 * pixels + inplane, pixel.a);
    }

    proof fn lemma_black_size(width: u32, height: u32) {
    }

    proof fn lemma_put_len(s: Seq<C>, width: u32, height: u32, x: u32, y: u32, p: ColorRgba<C>) {
        arith::lemma_rowmajor_in_grid(x as int, y as int, width as int, height as int);
    }

    proof fn lemma_get_put(s: Seq<C>, width: u32, height: u32, x: u32, y: u32, p: ColorRgba<C>) {
        arith::lemma_rowmajor_in_grid(x as int, y as int, width as int, height as int);
    }

    proof fn lemma_put_preserves_other(
        s: Seq<C>,
        width: u32,
        height: u32,
        x: u32,
        y: u32,
        p: ColorRgba<C>,
        x2: u32,
        y2: u32,
    ) {
        arith::lemma_rowmajor_in_grid(x as int, y as int, width as int, height as int);
        arith::lemma_rowmajor_in_grid(x2 as int, y2 as int, width as int, height as int);
        let o1 = y * width + x;
        let o2 = y2 * width + x2;
        let wh = (width * height) as int;
        arith::lemma_rowmajor_injective(
            x as int,
            y as int,
            x2 as int,
            y2 as int,
            width as int,
            height as int,
        );
        assert forall|k1: int, k2: int|
            0 <= k1 < 4 && 0 <= k2 < 4 implies #[trigger] (k1 * wh + o1) != #[trigger] (
        k2 * wh + o2) by {
            arith::lemma_rowmajor_injective(o1 as int, k1, o2 as int, k2, wh, 4);
        }
    }
}

} // verus!
