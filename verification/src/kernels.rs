//! The 3x3 kernel framework: a per-channel operator over a pixel's 3x3
//! neighborhood, and the driver that applies it to every interior pixel of a
//! surface. Channel samples pass through the normalized `[0, 0x10000)`
//! domain, where the 8-bit rescaling round-trips exactly.

use vstd::prelude::*;

use crate::arith;
use crate::colorspace::{Channel, Colorspace};
use crate::unified::{Format, Surface};

verus! {

/// The truncating mean of nine samples: each rescaled into the normalized
/// domain, summed, divided by nine (remainder dropped), and rescaled back.
pub open spec fn spec_average9<C: Channel>(p: Seq<C>) -> C {
    C::spec_from_i32(
        (C::spec_to_i32(p[0], 0, 0x10000) + C::spec_to_i32(p[1], 0, 0x10000) + C::spec_to_i32(
            p[2],
            0,
            0x10000,
        ) + C::spec_to_i32(p[3], 0, 0x10000) + C::spec_to_i32(p[4], 0, 0x10000) + C::spec_to_i32(
            p[5],
            0,
            0x10000,
        ) + C::spec_to_i32(p[6], 0, 0x10000) + C::spec_to_i32(p[7], 0, 0x10000) + C::spec_to_i32(
            p[8],
            0,
            0x10000,
        )) / 9,
        0,
        0x10000,
    )
}

/// The mean of one channel's 3x3 neighborhood, row-major with the center at
/// index 4.
pub fn average3x3<C: Channel>(plane: &[C; 9]) -> (r: C)
    requires
        C::converts(),
    ensures
        r == spec_average9(plane@),
{
    let t0 = plane[0].to_i32(0, 0x10000);
    let t1 = plane[1].to_i32(0, 0x10000);
    let t2 = plane[2].to_i32(0, 0x10000);
    let t3 = plane[3].to_i32(0, 0x10000);
    let t4 = plane[4].to_i32(0, 0x10000);
    let t5 = plane[5].to_i32(0, 0x10000);
    let t6 = plane[6].to_i32(0, 0x10000);
    let t7 = plane[7].to_i32(0, 0x10000);
    let t8 = plane[8].to_i32(0, 0x10000);
    let sum: u64 = t0 as u64 + t1 as u64 + t2 as u64 + t3 as u64 + t4 as u64 + t5 as u64
        + t6 as u64 + t7 as u64 + t8 as u64;
    let acc = sum / 9;
    proof {
        arith::lemma_div_nonneg(sum as int, 9);
        arith::lemma_div_le(sum as int, (9 * 0xFFFF) as int, 9);
    }
    C::from_i32(acc as i32, 0, 0x10000)
}

/// Averaging a uniform neighborhood gives the value back: in the
/// `[0, 0x10000)` domain an 8-bit sample rescales to exactly 256 times
/// itself, so the truncating mean of nine equal samples is a fixed point.
pub proof fn lemma_average9_uniform(t: u8)
    ensures
        spec_average9(Seq::new(9, |i: int| t)) == t,
{
    let p = Seq::new(9, |i: int| t);
    arith::lemma_div_mod_unique(t * 0x10000, 256, 256 * (t as int), 0);
    let up = u8::spec_to_i32(t, 0, 0x10000);
    assert(up == 256 * (t as int));
    arith::lemma_div_mod_unique(9 * up, 9, up, 0);
    arith::lemma_div_mod_unique(256 * up, 0x10000, t as int, 0);
}

/// The `j`-th pixel (row-major, `j < 9`) of the 3x3 neighborhood centered on
/// interior pixel `(x, y)`.
pub open spec fn spec_neighbor<M: Format<C>, C: Channel>(
    s: Seq<C>,
    width: u32,
    height: u32,
    x: u32,
    y: u32,
    j: int,
) -> M::Pixel {
    M::spec_get(s, width, height, (x - 1 + j % 3) as u32, (y - 1 + j / 3) as u32)
}

/// The per-channel 3x3 mean at interior pixel `(x, y)`: channel `k` of the
/// result is the mean of channel `k` over the nine neighbors.
pub open spec fn spec_average_pixel<M: Format<C>, C: Channel>(
    s: Seq<C>,
    width: u32,
    height: u32,
    x: u32,
    y: u32,
) -> M::Pixel {
    M::Pixel::spec_from_channels(
        Seq::new(
            M::Pixel::spec_channel_count(),
            |k: int|
                spec_average9(
                    Seq::new(
                        9,
                        |j: int| spec_neighbor::<M, C>(s, width, height, x, y, j).spec_channels()[k],
                    ),
                ),
        ),
    )
}

/// Is `(x, y)` an interior pixel: at least one pixel away from every edge?
pub open spec fn spec_interior(width: u32, height: u32, x: u32, y: u32) -> bool {
    &&& 1 <= x
    &&& x + 1 < width
    &&& 1 <= y
    &&& y + 1 < height
}

/// Averaging a uniform field changes nothing: if every pixel of the buffer
/// reads as `p`, the per-channel 3x3 mean at any interior pixel is `p`
/// again.
pub proof fn lemma_average_pixel_uniform<M: Format<u8>>(
    s: Seq<u8>,
    width: u32,
    height: u32,
    x: u32,
    y: u32,
    p: M::Pixel,
)
    requires
        spec_interior(width, height, x, y),
        forall|xx: u32, yy: u32|
            xx < width && yy < height ==> #[trigger] M::spec_get(s, width, height, xx, yy) == p,
    ensures
        spec_average_pixel::<M, u8>(s, width, height, x, y) == p,
{
    <M::Pixel as Colorspace>::lemma_channels_roundtrip(p);
    assert forall|j: int| 0 <= j < 9 implies #[trigger] spec_neighbor::<M, u8>(
        s,
        width,
        height,
        x,
        y,
        j,
    ) == p by {
        let nx = (x - 1 + j % 3) as u32;
        let ny = (y - 1 + j / 3) as u32;
        assert(nx < width && ny < height);
        assert(M::spec_get(s, width, height, nx, ny) == p);
    }
    let n = M::Pixel::spec_channel_count();
    assert forall|k: int| 0 <= k < n implies spec_average9(
        Seq::new(9, |j: int| spec_neighbor::<M, u8>(s, width, height, x, y, j).spec_channels()[k]),
    ) == #[trigger] p.spec_channels()[k] by {
        let t = p.spec_channels()[k];
        assert(Seq::new(
            9,
            |j: int| spec_neighbor::<M, u8>(s, width, height, x, y, j).spec_channels()[k],
        ) =~= Seq::new(9, |i: int| t));
        lemma_average9_uniform(t);
    }
    assert(Seq::new(
        n,
        |k: int|
            spec_average9(
                Seq::new(
                    9,
                    |j: int| spec_neighbor::<M, u8>(s, width, height, x, y, j).spec_channels()[k],
                ),
            ),
    ) =~= p.spec_channels());
}

/// Apply the 3x3 averaging kernel to every interior pixel of `input`,
/// writing results into `output`; the one-pixel border of `output` is left
/// as it was. The layout must store pixels independently, so that one write
/// never disturbs a neighbor.
pub fn run_average3x3<M: Format<C>, C: Channel>(input: &Surface<M, C>, output: &mut Surface<M, C>)
    requires
        input.wf(),
        old(output).wf(),
        C::converts(),
        M::pixel_independent(),
        input.spec_width() == old(output).spec_width(),
        input.spec_height() == old(output).spec_height(),
    ensures
        final(output).wf(),
        final(output).spec_width() == old(output).spec_width(),
        final(output).spec_height() == old(output).spec_height(),
        forall|x: u32, y: u32|
            spec_interior(input.spec_width(), input.spec_height(), x, y) ==> #[trigger] M::spec_get(
                final(output).contents(),
                input.spec_width(),
                input.spec_height(),
                x,
                y,
            ) == spec_average_pixel::<M, C>(
                input.contents(),
                input.spec_width(),
                input.spec_height(),
                x,
                y,
            ),
        forall|x: u32, y: u32|
            x < input.spec_width() && y < input.spec_height() && !spec_interior(
                input.spec_width(),
                input.spec_height(),
                x,
                y,
            ) ==> #[trigger] M::spec_get(
                final(output).contents(),
                input.spec_width(),
                input.spec_height(),
                x,
                y,
            ) == M::spec_get(
                old(output).contents(),
                input.spec_width(),
                input.spec_height(),
                x,
                y,
            ),
{
    let width = input.width();
    let height = input.height();
    if width < 3 || height < 3 {
        return ;
    }
    let mut y: u32 = 1;
    while y < height - 1
        invariant
            input.wf(),
            output.wf(),
            C::converts(),
            M::pixel_independent(),
            width == input.spec_width(),
            height == input.spec_height(),
            width == output.spec_width(),
            height == output.spec_height(),
            3 <= width,
            3 <= height,
            1 <= y <= height - 1,
            forall|xx: u32, yy: u32|
                spec_interior(width, height, xx, yy) && yy < y ==> #[trigger] M::spec_get(
                    output.contents(),
                    width,
                    height,
                    xx,
                    yy,
                ) == spec_average_pixel::<M, C>(input.contents(), width, height, xx, yy),
            forall|xx: u32, yy: u32|
                xx < width && yy < height && !(spec_interior(width, height, xx, yy) && yy < y)
                    ==> #[trigger] M::spec_get(output.contents(), width, height, xx, yy)
                    == M::spec_get(old(output).contents(), width, height, xx, yy),
        decreases height - y,
    {
        let mut x: u32 = 1;
        while x < width - 1
            invariant
                input.wf(),
                output.wf(),
                C::converts(),
                M::pixel_independent(),
                width == input.spec_width(),
                height == input.spec_height(),
                width == output.spec_width(),
                height == output.spec_height(),
                    3 <= width,
                3 <= height,
                1 <= y < height - 1,
                1 <= x <= width - 1,
                forall|xx: u32, yy: u32|
                    spec_interior(width, height, xx, yy) && (yy < y || (yy == y && xx < x))
                        ==> #[trigger] M::spec_get(output.contents(), width, height, xx, yy)
                        == spec_average_pixel::<M, C>(input.contents(), width, height, xx, yy),
                forall|xx: u32, yy: u32|
                    xx < width && yy < height && !(spec_interior(width, height, xx, yy) && (yy < y
                        || (yy == y && xx < x))) ==> #[trigger] M::spec_get(
                        output.contents(),
                        width,
                        height,
                        xx,
                        yy,
                    ) == M::spec_get(old(output).contents(), width, height, xx, yy),
            decreases width - x,
        {
            let px = average_at(input, x, y);
            let ghost prev = output.contents();
            output.put_pixel(x, y, px);
            proof {
                M::lemma_get_put(prev, width, height, x, y, px);
                assert forall|xx: u32, yy: u32|
                    xx < width && yy < height && (xx != x || yy != y) implies #[trigger] M::spec_get(
                    output.contents(),
                    width,
                    height,
                    xx,
                    yy,
                ) == M::spec_get(prev, width, height, xx, yy) by {
                    M::lemma_put_preserves_other(prev, width, height, x, y, px, xx, yy);
                }
            }
            x += 1;
        }
        y += 1;
    }
}

/// The per-channel 3x3 mean of `input` at interior pixel `(x, y)`.
fn average_at<M: Format<C>, C: Channel>(input: &Surface<M, C>, x: u32, y: u32) -> (r: M::Pixel)
    requires
        input.wf(),
        C::converts(),
        spec_interior(input.spec_width(), input.spec_height(), x, y),
    ensures
        r == spec_average_pixel::<M, C>(
            input.contents(),
            input.spec_width(),
            input.spec_height(),
            x,
            y,
        ),
{
    let ghost w = input.spec_width();
    let ghost h = input.spec_height();
    let ghost s = input.contents();
    let p0 = input.get_pixel(x - 1, y - 1);
    let p1 = input.get_pixel(x, y - 1);
    let p2 = input.get_pixel(x + 1, y - 1);
    let p3 = input.get_pixel(x - 1, y);
    let p4 = input.get_pixel(x, y);
    let p5 = input.get_pixel(x + 1, y);
    let p6 = input.get_pixel(x - 1, y + 1);
    let p7 = input.get_pixel(x, y + 1);
    let p8 = input.get_pixel(x + 1, y + 1);
    proof {
        assert(p0 == spec_neighbor::<M, C>(s, w, h, x, y, 0));
        assert(p1 == spec_neighbor::<M, C>(s, w, h, x, y, 1));
        assert(p2 == spec_neighbor::<M, C>(s, w, h, x, y, 2));
        assert(p3 == spec_neighbor::<M, C>(s, w, h, x, y, 3));
        assert(p4 == spec_neighbor::<M, C>(s, w, h, x, y, 4));
        assert(p5 == spec_neighbor::<M, C>(s, w, h, x, y, 5));
        assert(p6 == spec_neighbor::<M, C>(s, w, h, x, y, 6));
        assert(p7 == spec_neighbor::<M, C>(s, w, h, x, y, 7));
        assert(p8 == spec_neighbor::<M, C>(s, w, h, x, y, 8));
        <M::Pixel as Colorspace>::lemma_channels_roundtrip(p0);
        <M::Pixel as Colorspace>::lemma_channels_roundtrip(p1);
        <M::Pixel as Colorspace>::lemma_channels_roundtrip(p2);
        <M::Pixel as Colorspace>::lemma_channels_roundtrip(p3);
        <M::Pixel as Colorspace>::lemma_channels_roundtrip(p4);
        <M::Pixel as Colorspace>::lemma_channels_roundtrip(p5);
        <M::Pixel as Colorspace>::lemma_channels_roundtrip(p6);
        <M::Pixel as Colorspace>::lemma_channels_roundtrip(p7);
        <M::Pixel as Colorspace>::lemma_channels_roundtrip(p8);
    }
    let c0 = p0.channels();
    let c1 = p1.channels();
    let c2 = p2.channels();
    let c3 = p3.channels();
    let c4 = p4.channels();
    let c5 = p5.channels();
    let c6 = p6.channels();
    let c7 = p7.channels();
    let c8 = p8.channels();
    let n = <M::Pixel as Colorspace>::channel_count();
    let mut result: Vec<C> = Vec::new();
    let mut k: usize = 0;
    while k < n
        invariant
            C::converts(),
            n == <M::Pixel as Colorspace>::spec_channel_count(),
            k <= n,
            c0@ == spec_neighbor::<M, C>(s, w, h, x, y, 0).spec_channels(),
            c1@ == spec_neighbor::<M, C>(s, w, h, x, y, 1).spec_channels(),
            c2@ == spec_neighbor::<M, C>(s, w, h, x, y, 2).spec_channels(),
            c3@ == spec_neighbor::<M, C>(s, w, h, x, y, 3).spec_channels(),
            c4@ == spec_neighbor::<M, C>(s, w, h, x, y, 4).spec_channels(),
            c5@ == spec_neighbor::<M, C>(s, w, h, x, y, 5).spec_channels(),
            c6@ == spec_neighbor::<M, C>(s, w, h, x, y, 6).spec_channels(),
            c7@ == spec_neighbor::<M, C>(s, w, h, x, y, 7).spec_channels(),
            c8@ == spec_neighbor::<M, C>(s, w, h, x, y, 8).spec_channels(),
            c0@.len() == n,
            c1@.len() == n,
            c2@.len() == n,
            c3@.len() == n,
            c4@.len() == n,
            c5@.len() == n,
            c6@.len() == n,
            c7@.len() == n,
            c8@.len() == n,
            result@.len() == k,
            forall|kk: int|
                0 <= kk < k ==> #[trigger] result@[kk] == spec_average9(
                    Seq::new(
                        9,
                        |j: int|
                            spec_neighbor::<M, C>(s, w, h, x, y, j).spec_channels()[kk],
                    ),
                ),
        decreases n - k,
    {
        let plane: [C; 9] = [c0[k], c1[k], c2[k], c3[k], c4[k], c5[k], c6[k], c7[k], c8[k]];
        proof {
            assert(plane@ =~= Seq::new(
                9,
                |j: int| spec_neighbor::<M, C>(s, w, h, x, y, j).spec_channels()[k as int],
            ));
        }
        let avg = average3x3(&plane);
        result.push(avg);
        k += 1;
    }
    let r = <M::Pixel as Colorspace>::from_channels(&result);
    proof {
        assert(result@ =~= Seq::new(
            <M::Pixel as Colorspace>::spec_channel_count(),
            |kk: int|
                spec_average9(
                    Seq::new(9, |j: int| spec_neighbor::<M, C>(s, w, h, x, y, j).spec_channels()[kk]),
                ),
        ));
    }
    r
}

} // verus!
