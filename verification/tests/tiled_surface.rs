//! The zigzag (tiled) surface: painting through tiles, tile counting,
//! addressing round trips, and partition coverage.

use pixelbuf::surface::zigzag::{to_coord, to_idx};
use pixelbuf::surface::{align_number, tile_coords, Rect, Surface};
use pixelbuf::ColorRGBA;

#[test]
fn test_paint_it_red() {
    let width = 896;
    let height = 600;

    let mut surf: Surface<ColorRGBA<u8>> = Surface::new_black(width, height);

    let mut tiles = surf.divide_mut();
    for tile in tiles.iter_mut() {
        tile.fill(ColorRGBA::new_rgb(255_u8, 0, 0));
    }
    surf.restore_tiles(&tiles);

    for color in surf.iter_pixels() {
        assert_eq!(color.r, 255);
        assert_eq!(color.g, 0);
        assert_eq!(color.b, 0);
    }
}

#[test]
fn test_tile_rect_iter() {
    let surf: Surface<ColorRGBA<u8>> = Surface::new_black(896, 600);
    let mut tile_iter = surf.divide();
    let mut count = 0_u32;
    while tile_iter.next_location().is_some() {
        count += 1;
        tile_iter.advance();
    }
    assert_eq!(count, 525);
    assert_eq!(surf.divide().remaining(), 525);
}

#[test]
fn zigzag_roundtrip() {
    // One box: plain row-major inside it.
    assert_eq!(to_idx((128, 8), (5, 3)), 3 * 128 + 5);
    // Second box of a two-box row.
    assert_eq!(to_idx((256, 8), (130, 0)), 1024 + 2);
    // Round trip at an arbitrary in-bounds coordinate.
    let size = (896, 600);
    let idx = to_idx(size, (743, 397));
    assert_eq!(to_coord(size, idx), (743, 397));
    let coord = to_coord(size, 123_456);
    assert_eq!(to_idx(size, coord), 123_456);
}

#[test]
fn align_and_overrender() {
    assert_eq!(align_number(896, 128), 896);
    assert_eq!(align_number(600, 8), 600);
    assert_eq!(align_number(1, 128), 128);
    assert_eq!(align_number(0, 8), 0);
    let r = Rect { left: 0, width: 130, top: 0, height: 9 };
    let o = r.overrender();
    assert_eq!((o.width, o.height), (256, 16));
    let r = Rect { left: 0, width: 896, top: 0, height: 600 };
    let o = r.overrender();
    assert_eq!((o.width, o.height), (896, 600));
}

#[test]
fn surface_get_set_roundtrip() {
    let mut surf: Surface<ColorRGBA<u8>> = Surface::new_black(130, 9);
    assert_eq!(surf.width(), 130);
    assert_eq!(surf.height(), 9);
    assert_eq!(surf.overrender_size(), (256, 16));
    assert_eq!(surf.pixel_count(), 256 * 16);
    surf.set(129, 8, ColorRGBA::new_rgba(9, 8, 7, 6));
    let c = surf.get(129, 8);
    assert_eq!((c.r, c.g, c.b, c.a), (9, 8, 7, 6));
    // An untouched pixel keeps the background.
    let c = surf.get(0, 0);
    assert_eq!((c.r, c.g, c.b, c.a), (0, 0, 0, 255));
}

#[test]
fn tiles_partition_covers_exactly_once() {
    // The union of the clipped tile rectangles covers each coordinate of the
    // logical image exactly once.
    let surf: Surface<ColorRGBA<u8>> = Surface::new_black(130, 9);
    let mut tiles = surf.divide();
    let mut covered = vec![0_u32; 130 * 9];
    let mut seen = 0_u32;
    while let Some(rect) = tiles.next_location() {
        seen += 1;
        for y in rect.top..rect.top + rect.height {
            for x in rect.left..rect.left + rect.width {
                assert!(x < 130 && y < 9);
                covered[y * 130 + x] += 1;
            }
        }
        tiles.advance();
    }
    assert_eq!(seen, 4);
    for count in covered.iter() {
        assert_eq!(*count, 1);
    }
}

#[test]
fn tile_index_sees_surface_pixel() {
    let mut surf: Surface<ColorRGBA<u8>> = Surface::new_black(256, 16);
    surf.set(130, 2, ColorRGBA::new_rgba(1, 2, 3, 4));
    let mut tiles = surf.divide();
    // The pixel lies in the second tile of the top row.
    tiles.advance();
    let loc = tiles.next_location().unwrap();
    assert_eq!((loc.left, loc.top, loc.width, loc.height), (128, 0, 128, 8));
    let c = tiles.index_next((130, 2));
    assert_eq!((c.r, c.g, c.b, c.a), (1, 2, 3, 4));
}

#[test]
fn pixels_copies_logical_image() {
    let mut surf: Surface<ColorRGBA<u8>> = Surface::new_black(130, 9);
    surf.set(1, 0, ColorRGBA::new_rgba(7, 7, 7, 7));
    let all = surf.pixels();
    assert_eq!(all.len(), 130 * 9);
    // Column-major: x outermost, so (1, 0) lands at index 1 * 9 + 0.
    assert_eq!(all[9].r, 7);
    assert_eq!(all[0].r, 0);
}

#[test]
fn tile_coords_enumerates_clipped_rect() {
    let coords = tile_coords(Rect { left: 128, width: 2, top: 8, height: 1 });
    assert_eq!(coords, vec![(128, 8), (129, 8)]);
    let coords = tile_coords(Rect { left: 0, width: 3, top: 0, height: 2 });
    assert_eq!(coords, vec![(0, 0), (1, 0), (2, 0), (0, 1), (1, 1), (2, 1)]);
    let coords = tile_coords(Rect { left: 5, width: 0, top: 7, height: 4 });
    assert!(coords.is_empty());
}

#[test]
fn tile_writes_survive_restore() {
    // A pixel written through a mutable tile is the pixel the surface reads
    // back after the tiles are restored.
    let mut surf: Surface<ColorRGBA<u8>> = Surface::new_black(256, 16);
    let mut tiles = surf.divide_mut();
    tiles[1].put((130, 2), ColorRGBA::new_rgba(5, 6, 7, 8));
    surf.restore_tiles(&tiles);
    let c = surf.get(130, 2);
    assert_eq!((c.r, c.g, c.b, c.a), (5, 6, 7, 8));
    // An untouched pixel keeps its value.
    let c = surf.get(0, 0);
    assert_eq!((c.r, c.g, c.b, c.a), (0, 0, 0, 255));
}

