//! Channel arithmetic and color model behavior.

use pixelbuf::{Channel, Colorspace};
use pixelbuf::{ColorL, ColorLA, ColorRGB, ColorRGBA, ColorYUV};

#[test]
fn color_add() {
    let foo_color: ColorRGBA<u8> =
        ColorRGBA::new_rgba(1, 1, 1, 1).add(ColorRGBA::new_rgba(2, 2, 2, 2));
    assert_eq!(foo_color.r, 3);
    assert_eq!(foo_color.g, 3);
    assert_eq!(foo_color.b, 3);
    assert_eq!(foo_color.a, 3);

    let foo_color: ColorRGBA<u8> =
        ColorRGBA::new_rgba(200, 1, 1, 1).add(ColorRGBA::new_rgba(200, 2, 2, 2));
    assert_eq!(foo_color.r, 255);
    assert_eq!(foo_color.g, 3);
    assert_eq!(foo_color.b, 3);
    assert_eq!(foo_color.a, 3);
}

#[test]
fn color_sub() {
    let foo_color: ColorRGBA<u8> =
        ColorRGBA::new_rgba(7, 7, 7, 7).sub(ColorRGBA::new_rgba(2, 2, 2, 2));
    assert_eq!(foo_color.r, 5);
    assert_eq!(foo_color.g, 5);
    assert_eq!(foo_color.b, 5);
    assert_eq!(foo_color.a, 5);
}

#[test]
fn sub_saturates_at_zero() {
    let c: ColorRGBA<u8> = ColorRGBA::new_rgba(2, 2, 2, 2).sub(ColorRGBA::new_rgba(7, 7, 7, 7));
    assert_eq!(c.r, 0);
    assert_eq!(c.g, 0);
    assert_eq!(c.b, 0);
    assert_eq!(c.a, 0);
}

#[test]
fn channel_saturating_arithmetic() {
    assert_eq!(<u8 as Channel>::add(200, 100), 255);
    assert_eq!(<u8 as Channel>::sub(100, 200), 0);
    assert_eq!(<u16 as Channel>::add(65000, 2000), 65535);
    assert_eq!(<u16 as Channel>::sub(10, 20), 0);
    assert_eq!(<u32 as Channel>::add(0xFFFF_FFFF, 1), 0xFFFF_FFFF);
    assert_eq!(<u32 as Channel>::sub(3, 5), 0);
}

#[test]
fn channel_bounds_and_depth() {
    assert_eq!(<u8 as Channel>::min_value(), 0);
    assert_eq!(<u8 as Channel>::max_value(), 255);
    assert_eq!(<u8 as Channel>::max_depth(), Some(255));
    assert_eq!(<u16 as Channel>::max_depth(), Some(65535));
    assert_eq!(<u32 as Channel>::max_depth(), Some(0xFFFF_FFFF));
}

#[test]
fn channel_rescaling_u8() {
    // The channel value standing for the midpoint of [0, 2] is 128.
    assert_eq!(<u8 as Channel>::from_i32(1, 0, 2), 128);
    assert_eq!(<u8 as Channel>::from_i32(0, 0, 2), 0);
    // Rescaling through the 16-bit intermediate domain is exact both ways.
    let up = 200u8.to_i32(0, 65536);
    assert_eq!(up, 200 * 256);
    assert_eq!(<u8 as Channel>::from_i32(up, 0, 65536), 200);
    let up = 255u8.to_i32(0, 65536);
    assert_eq!(up, 65280);
    assert_eq!(<u8 as Channel>::from_i32(up, 0, 65536), 255);
}

#[test]
fn white_and_black_sentinels() {
    let w: ColorRGBA<u8> = Colorspace::white();
    assert_eq!((w.r, w.g, w.b, w.a), (255, 255, 255, 255));
    let b: ColorRGBA<u8> = Colorspace::black();
    assert_eq!((b.r, b.g, b.b, b.a), (0, 0, 0, 255));
    let b: ColorLA<u8> = Colorspace::black();
    assert_eq!((b.l, b.a), (0, 255));
    let b: ColorYUV<u8> = Colorspace::black();
    assert_eq!((b.y, b.u, b.v), (0, 0, 0));
    let w: ColorL<u8> = Colorspace::white();
    assert_eq!(w.l, 255);
}

#[test]
fn luma_projections() {
    let l = ColorYUV::<u8>::new_yuv(77, 10, 20).luma();
    assert_eq!(l.l, 77);
    let l = ColorLA::<u8>::new_la(42, 9).luma();
    assert_eq!(l.l, 42);
    // Weighted RGB projection: black maps to zero.
    let l = ColorRGB::<u8>::new_rgb(0, 0, 0).luma();
    assert_eq!(l.l, 0);
    // Near-white gray: rescaling into [0, 255) loses at most one step.
    let l = ColorRGB::<u8>::new_rgb(255, 255, 255).luma();
    assert_eq!(l.l, 254);
    let l = ColorRGBA::<u8>::new_rgb(255, 255, 255).luma();
    assert_eq!(l.l, 254);
}

#[test]
fn packed_rgba_unpacks() {
    let c = ColorRGBA::from_packed_rgba(0x11223344);
    assert_eq!((c.r, c.g, c.b, c.a), (0x11, 0x22, 0x33, 0x44));
}

#[test]
fn channels_roundtrip() {
    let c = ColorRGB::<u8>::new_rgb(1, 2, 3);
    let v = c.channels();
    assert_eq!(v, vec![1, 2, 3]);
    let back: ColorRGB<u8> = Colorspace::from_channels(&v);
    assert_eq!(back, c);
    let c = ColorRGBA::<u8>::new_rgba(5, 6, 7, 8);
    let v = c.channels();
    assert_eq!(v, vec![5, 6, 7, 8]);
    let back: ColorRGBA<u8> = Colorspace::from_channels(&v);
    assert_eq!(back, c);
}
