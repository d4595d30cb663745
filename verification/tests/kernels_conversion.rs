//! The 3x3 averaging kernel and the YUV to RGB conversion.

use pixelbuf::colorspace::conversion::yuv2rgb::pixel_yuv444_to_rgb888;
use pixelbuf::kernels::{average3x3, run_average3x3};
use pixelbuf::{yuv444_to_rgb888, ColorRGB, ColorYUV, Rgb, Surface, Yuv444};

#[test]
fn average_of_uniform_plane_is_identity() {
    assert_eq!(average3x3(&[100u8; 9]), 100);
    assert_eq!(average3x3(&[255u8; 9]), 255);
    assert_eq!(average3x3(&[0u8; 9]), 0);
}

#[test]
fn average_truncates() {
    // Mean of 0..=8 is 4: the normalized sum is 36 * 256, divided by nine.
    let plane: [u8; 9] = [0, 1, 2, 3, 4, 5, 6, 7, 8];
    assert_eq!(average3x3(&plane), 4);
    // 8 ones and a zero: 8 * 256 / 9 truncates down to 227, which rescales
    // back to 0 in 8 bits.
    let plane: [u8; 9] = [1, 1, 1, 1, 0, 1, 1, 1, 1];
    assert_eq!(average3x3(&plane), 0);
}

#[test]
fn average_kernel_keeps_uniform_field() {
    // A 10 x 10 red field stays exactly red at every interior pixel:
    // saturating arithmetic must not perturb a uniform field.
    let mut input: Surface<Rgb, u8> = Surface::new_black(10, 10);
    for y in 0..10 {
        for x in 0..10 {
            input.put_pixel(x, y, ColorRGB::new_rgb(255, 0, 0));
        }
    }
    let mut output: Surface<Rgb, u8> = Surface::new_black(10, 10);
    run_average3x3(&input, &mut output);
    for y in 1..9 {
        for x in 1..9 {
            let p = output.get_pixel(x, y);
            assert_eq!((p.r, p.g, p.b), (255, 0, 0));
        }
    }
    // The border is not processed: it keeps the output's initial black.
    for i in 0..10 {
        let p = output.get_pixel(i, 0);
        assert_eq!((p.r, p.g, p.b), (0, 0, 0));
        let p = output.get_pixel(i, 9);
        assert_eq!((p.r, p.g, p.b), (0, 0, 0));
        let p = output.get_pixel(0, i);
        assert_eq!((p.r, p.g, p.b), (0, 0, 0));
        let p = output.get_pixel(9, i);
        assert_eq!((p.r, p.g, p.b), (0, 0, 0));
    }
}

#[test]
fn average_kernel_smooths_a_spike() {
    // A single bright pixel in a dark field spreads to its neighbors.
    let mut input: Surface<Rgb, u8> = Surface::new_black(5, 5);
    input.put_pixel(2, 2, ColorRGB::new_rgb(90, 0, 0));
    let mut output: Surface<Rgb, u8> = Surface::new_black(5, 5);
    run_average3x3(&input, &mut output);
    // 90 * 256 / 9 = 2560, which rescales back to 10.
    let p = output.get_pixel(1, 1);
    assert_eq!((p.r, p.g, p.b), (10, 0, 0));
    let p = output.get_pixel(2, 2);
    assert_eq!((p.r, p.g, p.b), (10, 0, 0));
}

#[test]
fn neutral_chroma_maps_to_gray() {
    // Near-white video luma with neutral chroma: R = G = B = Y exactly.
    let c = pixel_yuv444_to_rgb888(ColorYUV::new_yuv(235, 128, 128));
    assert_eq!((c.r, c.g, c.b), (235, 235, 235));
    let c = pixel_yuv444_to_rgb888(ColorYUV::new_yuv(0, 128, 128));
    assert_eq!((c.r, c.g, c.b), (0, 0, 0));
    let c = pixel_yuv444_to_rgb888(ColorYUV::new_yuv(16, 128, 128));
    assert_eq!((c.r, c.g, c.b), (16, 16, 16));
}

#[test]
fn saturated_chroma_clamps() {
    // Extreme chroma drives red far past the range and blue below it.
    let c = pixel_yuv444_to_rgb888(ColorYUV::new_yuv(255, 0, 255));
    assert_eq!((c.r, c.g, c.b), (255, 210, 33));
    let c = pixel_yuv444_to_rgb888(ColorYUV::new_yuv(0, 255, 0));
    assert_eq!((c.r, c.g, c.b), (0, 46, 220));
}

#[test]
fn surface_conversion_is_per_pixel() {
    let mut surf: Surface<Yuv444, u8> = Surface::new_black(3, 2);
    surf.put_pixel(1, 0, ColorYUV::new_yuv(235, 128, 128));
    surf.put_pixel(2, 1, ColorYUV::new_yuv(255, 0, 255));
    let rgb = yuv444_to_rgb888(&surf);
    assert_eq!(rgb.width(), 3);
    assert_eq!(rgb.height(), 2);
    let p = rgb.get_pixel(1, 0);
    assert_eq!((p.r, p.g, p.b), (235, 235, 235));
    let p = rgb.get_pixel(2, 1);
    assert_eq!((p.r, p.g, p.b), (255, 210, 33));
    // A black YUV pixel (zero luma, neutral chroma) converts to black RGB.
    let p = rgb.get_pixel(0, 0);
    assert_eq!((p.r, p.g, p.b), (0, 0, 0));
}
