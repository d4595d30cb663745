//! Format layouts: element counts, black fills, get/put round trips
//! (including last-write-wins on shared chroma), planes, and topologies.

use pixelbuf::unified::topology::{Lines, Topology, Zig};
use pixelbuf::unified::yuv420::{get_u, get_v, get_y};
use pixelbuf::{surface_byte_size, Format, PlanarFormat, Surface};
use pixelbuf::{ColorRGB, ColorRGBA, ColorYUV};
use pixelbuf::{Luma, Rgb, RgbPlanar, Rgba, RgbaPlanar, Yuv420p, Yuv422, Yuv422p, Yuv444, Yuv444p};

#[test]
fn channel_data_sizes() {
    // The element count equals exactly what one black fill covers: the
    // surface built by new_black has that many elements.
    assert_eq!(<Luma as Format<u8>>::channel_data_size(4, 3), 12);
    assert_eq!(<Rgb as Format<u8>>::channel_data_size(4, 3), 36);
    assert_eq!(<Rgba as Format<u8>>::channel_data_size(4, 3), 48);
    assert_eq!(<RgbPlanar as Format<u8>>::channel_data_size(4, 3), 36);
    assert_eq!(<RgbaPlanar as Format<u8>>::channel_data_size(4, 3), 48);
    assert_eq!(<Yuv444 as Format<u8>>::channel_data_size(4, 3), 36);
    assert_eq!(<Yuv444p as Format<u8>>::channel_data_size(4, 3), 36);
    assert_eq!(<Yuv420p as Format<u8>>::channel_data_size(4, 2), 12);
    assert_eq!(<Yuv422 as Format<u8>>::channel_data_size(4, 2), 16);
    assert_eq!(<Yuv422p as Format<u8>>::channel_data_size(4, 2), 16);

    let s: Surface<Luma, u8> = Surface::new_black(4, 3);
    assert_eq!(s.as_storage().len(), 12);
    let s: Surface<Yuv420p, u8> = Surface::new_black(4, 2);
    assert_eq!(s.as_storage().len(), 12);
    let s: Surface<Yuv422, u8> = Surface::new_black(4, 2);
    assert_eq!(s.as_storage().len(), 16);
    assert_eq!(surface_byte_size::<Rgb, u8>(4, 3), 36);
}

#[test]
fn black_is_zero_luma_neutral_chroma() {
    let s: Surface<Yuv420p, u8> = Surface::new_black(4, 2);
    for y in 0..2 {
        for x in 0..4 {
            let p = s.get_pixel(x, y);
            assert_eq!((p.y, p.u, p.v), (0, 128, 128));
        }
    }
    let s: Surface<Yuv444, u8> = Surface::new_black(3, 3);
    let p = s.get_pixel(2, 2);
    assert_eq!((p.y, p.u, p.v), (0, 128, 128));
    let s: Surface<Yuv444p, u8> = Surface::new_black(3, 3);
    let p = s.get_pixel(0, 1);
    assert_eq!((p.y, p.u, p.v), (0, 128, 128));
    let s: Surface<Yuv422p, u8> = Surface::new_black(4, 2);
    let p = s.get_pixel(3, 1);
    assert_eq!((p.y, p.u, p.v), (0, 128, 128));
    let s: Surface<Luma, u8> = Surface::new_black(4, 3);
    assert_eq!(s.get_pixel(3, 2).l, 0);
    let s: Surface<Rgb, u8> = Surface::new_black(4, 3);
    let p = s.get_pixel(1, 2);
    assert_eq!((p.r, p.g, p.b), (0, 0, 0));
}

#[test]
fn put_get_roundtrip_rgb_layouts() {
    let mut s: Surface<Rgb, u8> = Surface::new_black(4, 3);
    s.put_pixel(2, 1, ColorRGB::new_rgb(10, 20, 30));
    let p = s.get_pixel(2, 1);
    assert_eq!((p.r, p.g, p.b), (10, 20, 30));
    // Neighbours stay untouched in a packed layout.
    let q = s.get_pixel(1, 1);
    assert_eq!((q.r, q.g, q.b), (0, 0, 0));

    let mut s: Surface<RgbPlanar, u8> = Surface::new_black(4, 3);
    s.put_pixel(3, 2, ColorRGB::new_rgb(1, 2, 3));
    let p = s.get_pixel(3, 2);
    assert_eq!((p.r, p.g, p.b), (1, 2, 3));

    let mut s: Surface<Rgba, u8> = Surface::new_black(4, 3);
    s.put_pixel(0, 0, ColorRGBA::new_rgba(4, 5, 6, 7));
    let p = s.get_pixel(0, 0);
    assert_eq!((p.r, p.g, p.b, p.a), (4, 5, 6, 7));

    let mut s: Surface<RgbaPlanar, u8> = Surface::new_black(4, 3);
    s.put_pixel(1, 2, ColorRGBA::new_rgba(8, 9, 10, 11));
    let p = s.get_pixel(1, 2);
    assert_eq!((p.r, p.g, p.b, p.a), (8, 9, 10, 11));
}

#[test]
fn put_get_roundtrip_luma_and_yuv444() {
    let mut s: Surface<Luma, u8> = Surface::new_black(4, 3);
    s.put_pixel(1, 1, pixelbuf::ColorL::new_l(99));
    assert_eq!(s.get_pixel(1, 1).l, 99);

    let mut s: Surface<Yuv444, u8> = Surface::new_black(3, 3);
    s.put_pixel(1, 2, ColorYUV::new_yuv(10, 20, 30));
    let p = s.get_pixel(1, 2);
    assert_eq!((p.y, p.u, p.v), (10, 20, 30));

    let mut s: Surface<Yuv444p, u8> = Surface::new_black(3, 3);
    s.put_pixel(2, 0, ColorYUV::new_yuv(40, 50, 60));
    let p = s.get_pixel(2, 0);
    assert_eq!((p.y, p.u, p.v), (40, 50, 60));
}

#[test]
fn shared_chroma_last_write_wins() {
    // 4:2:0 planar: the last write among the pixels sharing a chroma sample
    // decides its value; luma stays per-pixel.
    let mut s: Surface<Yuv420p, u8> = Surface::new_black(4, 2);
    s.put_pixel(2, 0, ColorYUV::new_yuv(50, 60, 70));
    s.put_pixel(3, 0, ColorYUV::new_yuv(80, 90, 100));
    let p = s.get_pixel(3, 0);
    assert_eq!((p.y, p.u, p.v), (80, 90, 100));
    let q = s.get_pixel(2, 0);
    assert_eq!((q.y, q.u, q.v), (50, 90, 100));

    // 4:2:2 packed: the even/odd column pair shares one U/V pair.
    let mut s: Surface<Yuv422, u8> = Surface::new_black(4, 2);
    s.put_pixel(2, 1, ColorYUV::new_yuv(11, 12, 13));
    s.put_pixel(3, 1, ColorYUV::new_yuv(21, 22, 23));
    let p = s.get_pixel(3, 1);
    assert_eq!((p.y, p.u, p.v), (21, 22, 23));
    let q = s.get_pixel(2, 1);
    assert_eq!((q.y, q.u, q.v), (11, 22, 23));

    // 4:2:2 planar behaves the same way.
    let mut s: Surface<Yuv422p, u8> = Surface::new_black(4, 2);
    s.put_pixel(0, 0, ColorYUV::new_yuv(1, 2, 3));
    s.put_pixel(1, 0, ColorYUV::new_yuv(4, 5, 6));
    let p = s.get_pixel(1, 0);
    assert_eq!((p.y, p.u, p.v), (4, 5, 6));
    let q = s.get_pixel(0, 0);
    assert_eq!((q.y, q.u, q.v), (1, 5, 6));
}

#[test]
fn planes_split_yuv_buffers() {
    let s: Surface<Yuv420p, u8> = Surface::new_black(4, 2);
    let (yp, up, vp) = Yuv420p::get_planes(s.as_storage(), (4, 2));
    assert_eq!(yp.len(), 8);
    assert_eq!(up.len(), 2);
    assert_eq!(vp.len(), 2);
    assert_eq!(yp[0], 0);
    assert_eq!(up[0], 128);
    assert_eq!(vp[1], 128);

    let s: Surface<Yuv422p, u8> = Surface::new_black(4, 2);
    let (yp, up, vp) = Yuv422p::get_planes(s.as_storage(), (4, 2));
    assert_eq!((yp.len(), up.len(), vp.len()), (8, 4, 4));

    let data: Vec<u8> = vec![1, 1, 1, 1, 2, 3];
    assert_eq!(get_y(data.as_slice(), 4), &[1, 1, 1, 1]);
    assert_eq!(get_u(data.as_slice(), 4), &[2]);
    assert_eq!(get_v(data.as_slice(), 4), &[3]);
}

#[test]
fn raw_bytes_and_storage() {
    let mut s: Surface<Luma, u8> = Surface::new_black(2, 2);
    s.put_pixel(1, 0, pixelbuf::ColorL::new_l(5));
    assert_eq!(s.raw_bytes(), &[0, 5, 0, 0]);
    let copy = s.to_owned();
    assert_eq!(copy.raw_bytes(), &[0, 5, 0, 0]);
    assert_eq!(copy.width(), 2);
    assert_eq!(copy.height(), 2);
    let storage = s.into_storage();
    assert_eq!(storage, vec![0, 5, 0, 0]);
    let back: Surface<Luma, u8> = Surface::new(2, 2, storage);
    assert_eq!(back.get_pixel(1, 0).l, 5);
}

#[test]
fn pixels_iterate_row_major() {
    let mut s: Surface<Luma, u8> = Surface::new_black(2, 2);
    s.put_pixel(0, 0, pixelbuf::ColorL::new_l(1));
    s.put_pixel(1, 0, pixelbuf::ColorL::new_l(2));
    s.put_pixel(0, 1, pixelbuf::ColorL::new_l(3));
    s.put_pixel(1, 1, pixelbuf::ColorL::new_l(4));
    let mut it = s.iter_pixels();
    assert_eq!(it.next().unwrap().l, 1);
    assert_eq!(it.next().unwrap().l, 2);
    assert_eq!(it.next().unwrap().l, 3);
    assert_eq!(it.next().unwrap().l, 4);
    assert!(it.next().is_none());
}

#[test]
fn topology_roundtrips() {
    // Row-major order.
    assert_eq!(Lines::buffer_size((896, 600)), 896 * 600);
    let off = Lines::get_offset((896, 600), (743, 397));
    assert_eq!(off, 743 + 397 * 896);
    assert_eq!(Lines::get_position((896, 600), off), (743, 397));

    // Tile-major order pads up to whole tiles.
    assert_eq!(Zig::buffer_size((896, 600)), 896 * 600);
    assert_eq!(Zig::buffer_size((130, 9)), 256 * 16);
    let off = Zig::get_offset((896, 600), (743, 397));
    assert_eq!(Zig::get_position((896, 600), off), (743, 397));
    // Inside the first tile the order is plain row-major.
    assert_eq!(Zig::get_offset((896, 600), (5, 3)), 3 * 128 + 5);
}

#[test]
fn extract_luma_of_black_yuv420() {
    // End to end: an 8 x 8 all-black 4:2:0 surface yields an 8 x 8 all-zero
    // luma surface.
    let surf: Surface<Yuv420p, u8> = Surface::new_black(8, 8);
    let luma = pixelbuf::extract_luma(&surf);
    assert_eq!(luma.width(), 8);
    assert_eq!(luma.height(), 8);
    assert_eq!(luma.raw_bytes().len(), 64);
    for b in luma.raw_bytes() {
        assert_eq!(*b, 0);
    }
}

#[test]
fn extract_luma_follows_pixels() {
    let mut surf: Surface<Yuv444, u8> = Surface::new_black(4, 3);
    surf.put_pixel(2, 1, ColorYUV::new_yuv(77, 10, 20));
    let luma = pixelbuf::extract_luma(&surf);
    assert_eq!(luma.get_pixel(2, 1).l, 77);
    assert_eq!(luma.get_pixel(0, 0).l, 0);
}

