//! YUV to RGB conversion in exact fixed point. Each channel is
//! `value + coefficient * chroma offset + 1/2`, truncated and clamped to
//! `[0, 255]`; the six-decimal coefficients are carried as integers over a
//! common denominator of two million.

use vstd::prelude::*;

use crate::colorspace::{ColorRGB, ColorYUV};
use crate::unified::{Format, Rgb, Surface, Yuv444};

verus! {

/// One output channel: the numerator over the common denominator, floored
/// and clamped to `[0, 255]`.
pub open spec fn spec_yuv_term(num: int) -> int {
    let q = num / 2000000;
    if q < 0 {
        0
    } else if q > 255 {
        255
    } else {
        q
    }
}

/// The BT.601-like transform of one full-resolution YUV pixel:
/// `R = Y + 1.370705 vp`, `G = Y - 0.698001 vp - 0.337633 up`,
/// `B = Y + 1.732446 up`, each plus one half, truncated, clamped, where
/// `up = U - 128` and `vp = V - 128`.
pub open spec fn spec_yuv444_to_rgb888(c: ColorYUV<u8>) -> ColorRGB<u8> {
    let yv = c.y as int;
    let up = c.u - 128;
    let vp = c.v - 128;
    ColorRGB {
        r: spec_yuv_term(2000000 * yv + 2741410 * vp + 1000000) as u8,
        g: spec_yuv_term(2000000 * yv - 1396002 * vp - 675266 * up + 1000000) as u8,
        b: spec_yuv_term(2000000 * yv + 3464892 * up + 1000000) as u8,
    }
}

/// Floor, divide by the common denominator and clamp one channel numerator.
fn yuv_term(num: i64) -> (r: u8)
    requires
        -0x4000_0000_0000 <= num <= 0x4000_0000_0000,
    ensures
        r == spec_yuv_term(num as int),
{
    if num <= 0 {
        proof {
            assert(num as int / 2000000 <= 0) by (nonlinear_arith)
                requires
                    num <= 0,
            ;
        }
        0
    } else {
        let q = (num as u64) / 2000000;
        if q > 255 {
            255
        } else {
            q as u8
        }
    }
}

/// Convert one full-resolution YUV pixel to RGB.
pub fn pixel_yuv444_to_rgb888(c: ColorYUV<u8>) -> (r: ColorRGB<u8>)
    ensures
        r == spec_yuv444_to_rgb888(c),
{
    let yv = c.y as i64;
    let up = c.u as i64 - 128;
    let vp = c.v as i64 - 128;
    let r = yuv_term(2000000 * yv + 2741410 * vp + 1000000);
    let g = yuv_term(2000000 * yv - 1396002 * vp - 675266 * up + 1000000);
    let b = yuv_term(2000000 * yv + 3464892 * up + 1000000);
    ColorRGB { r, g, b }
}

/// Convert a packed 4:4:4 YUV surface into a freshly allocated packed RGB
/// surface of the same dimensions, pixel by pixel.
pub fn yuv444_to_rgb888(surf: &Surface<Yuv444, u8>) -> (out: Surface<Rgb, u8>)
    requires
        surf.wf(),
    ensures
        out.wf(),
        out.spec_width() == surf.spec_width(),
        out.spec_height() == surf.spec_height(),
        forall|x: u32, y: u32|
            x < surf.spec_width() && y < surf.spec_height() ==> <Rgb as Format<u8>>::spec_get(
                out.contents(),
                surf.spec_width(),
                surf.spec_height(),
                x,
                y,
            ) == spec_yuv444_to_rgb888(
                #[trigger] <Yuv444 as Format<u8>>::spec_get(
                    surf.contents(),
                    surf.spec_width(),
                    surf.spec_height(),
                    x,
                    y,
                ),
            ),
{
    let width = surf.width();
    let height = surf.height();
    let mut data: Vec<u8> = Vec::new();
    let mut y: u32 = 0;
    while y < height
        invariant
            surf.wf(),
            width == surf.spec_width(),
            height == surf.spec_height(),
            y <= height,
            data@.len() == 3 * (y * width),
            forall|xx: u32, yy: u32|
                xx < width && yy < y ==> ({
                    let rgb = spec_yuv444_to_rgb888(
                        #[trigger] <Yuv444 as Format<u8>>::spec_get(
                            surf.contents(),
                            width,
                            height,
                            xx,
                            yy,
                        ),
                    );
                    &&& data@[3 * (yy * width + xx)] == rgb.r
                    &&& data@[3 * (yy * width + xx) + 1] == rgb.g
                    &&& data@[3 * (yy * width + xx) + 2] == rgb.b
                }),
        decreases height - y,
    {
        let mut x: u32 = 0;
        while x < width
            invariant
                surf.wf(),
                width == surf.spec_width(),
                height == surf.spec_height(),
                y < height,
                x <= width,
                data@.len() == 3 * (y * width + x),
                forall|xx: u32, yy: u32|
                    xx < width && yy < y ==> ({
                        let rgb = spec_yuv444_to_rgb888(
                            #[trigger] <Yuv444 as Format<u8>>::spec_get(
                                surf.contents(),
                                width,
                                height,
                                xx,
                                yy,
                            ),
                        );
                        &&& data@[3 * (yy * width + xx)] == rgb.r
                        &&& data@[3 * (yy * width + xx) + 1] == rgb.g
                        &&& data@[3 * (yy * width + xx) + 2] == rgb.b
                    }),
                forall|xx: u32|
                    xx < x ==> ({
                        let rgb = spec_yuv444_to_rgb888(
                            #[trigger] <Yuv444 as Format<u8>>::spec_get(
                                surf.contents(),
                                width,
                                height,
                                xx,
                                y,
                            ),
                        );
                        &&& data@[3 * (y * width + xx)] == rgb.r
                        &&& data@[3 * (y * width + xx) + 1] == rgb.g
                        &&& data@[3 * (y * width + xx) + 2] == rgb.b
                    }),
            decreases width - x,
        {
            proof {
                crate::arith::lemma_rowmajor_in_grid(
                    x as int,
                    y as int,
                    width as int,
                    height as int,
                );
                assert forall|xx: u32, yy: u32| xx < width && (yy < y || (yy == y && xx < x))
                    implies #[trigger] (yy * width + xx) < y * width + x by {
                    if yy < y {
                        crate::arith::lemma_rowmajor_in_grid(
                            xx as int,
                            yy as int,
                            width as int,
                            y as int,
                        );
                        assert(width as int * y == y as int * width) by (nonlinear_arith);
                    }
                }
            }
            let pin = surf.get_pixel(x, y);
            let rgb = pixel_yuv444_to_rgb888(pin);
            data.push(rgb.r);
            data.push(rgb.g);
            data.push(rgb.b);
            x += 1;
        }
        y += 1;
        proof {
            assert(y as int * width == (y as int - 1) * width + width) by (nonlinear_arith);
        }
    }
    proof {
        assert(width as int * height == height as int * width) by (nonlinear_arith);
        assert(data@.len() == <Rgb as Format<u8>>::spec_size(width, height));
    }
    let out: Surface<Rgb, u8> = Surface::new(width, height, data);
    proof {
        assert forall|x: u32, y: u32| x < width && y < height implies <Rgb as Format<
            u8,
        >>::spec_get(out.contents(), width, height, x, y) == spec_yuv444_to_rgb888(
            #[trigger] <Yuv444 as Format<u8>>::spec_get(surf.contents(), width, height, x, y),
        ) by {
            crate::arith::lemma_rowmajor_in_grid(x as int, y as int, width as int, height as int);
        }
    }
    out
}

} // verus!
