//! Addressing strategies turning `(x, y)` into a linear offset: plain
//! row-major order, and a cache-friendly tile-major order.

use vstd::prelude::*;

use crate::arith;

verus! {

/// Width of one tile of the `Zig` topology, in pixels.
pub const ZIG_TILE_WIDTH: u32 = 128;

/// Height of one tile of the `Zig` topology, in pixels.
pub const ZIG_TILE_HEIGHT: u32 = 8;

/// An addressing strategy for a `width x height` image.
pub trait Topology {
    /// Whether a buffer size can be computed for this image size.
    spec fn spec_size_ok(image_size: (u32, u32)) -> bool;

    /// Whether offsets can be computed: the `Zig` topology asks for
    /// tile-aligned dimensions.
    spec fn spec_aligned(image_size: (u32, u32)) -> bool;

    /// Elements a buffer needs for this image size, padding included.
    spec fn spec_buffer_size(image_size: (u32, u32)) -> nat;

    /// The linear offset of a coordinate.
    spec fn spec_offset(image_size: (u32, u32), position: (u32, u32)) -> int;

    /// The coordinate stored at a linear offset.
    spec fn spec_position(image_size: (u32, u32), offset: int) -> (int, int);

    fn buffer_size(image_size: (u32, u32)) -> (r: usize)
        requires
            Self::spec_size_ok(image_size),
        ensures
            r == Self::spec_buffer_size(image_size),
    ;

    fn get_offset(image_size: (u32, u32), position: (u32, u32)) -> (r: usize)
        requires
            Self::spec_size_ok(image_size),
            Self::spec_aligned(image_size),
            position.0 < image_size.0,
            position.1 < image_size.1,
        ensures
            r == Self::spec_offset(image_size, position),
    ;

    fn get_position(image_size: (u32, u32), offset: usize) -> (r: (u32, u32))
        requires
            Self::spec_size_ok(image_size),
            Self::spec_aligned(image_size),
            offset < Self::spec_buffer_size(image_size),
        ensures
            (r.0 as int, r.1 as int) == Self::spec_position(image_size, offset as int),
    ;

    /// The offset of every in-bounds coordinate lies inside the buffer, and
    /// recovering the position from it gives the coordinate back.
    proof fn lemma_roundtrip(image_size: (u32, u32), position: (u32, u32))
        requires
            Self::spec_size_ok(image_size),
            Self::spec_aligned(image_size),
            position.0 < image_size.0,
            position.1 < image_size.1,
        ensures
            0 <= Self::spec_offset(image_size, position) < Self::spec_buffer_size(image_size),
            Self::spec_position(image_size, Self::spec_offset(image_size, position)) == (
                position.0 as int,
                position.1 as int,
            ),
    ;

    /// Conversely, every in-buffer offset names an in-bounds coordinate whose
    /// offset it is.
    proof fn lemma_offset_roundtrip(image_size: (u32, u32), offset: int)
        requires
            Self::spec_size_ok(image_size),
            Self::spec_aligned(image_size),
            0 <= offset < Self::spec_buffer_size(image_size),
        ensures
            ({
                let (x, y) = Self::spec_position(image_size, offset);
                &&& 0 <= x < image_size.0
                &&& 0 <= y < image_size.1
                &&& Self::spec_offset(image_size, (x as u32, y as u32)) == offset
            }),
    ;
}

/// Tile-major order over 128 x 8 tiles, row-major inside a tile and over the
/// tile grid.
pub struct Zig;

/// The arithmetic behind `Zig`: tile index times tile area, plus the
/// row-major offset inside the tile.
pub open spec fn zig_offset(width: u32, x: int, y: int) -> int {
    ((y / 8) * (width as int / 128) + x / 128) * 1024 + (y % 8) * 128 + x % 128
}

/// Everything `Zig`'s round trip needs about one coordinate, packaged so the
/// nonlinear reasoning happens in one place.
proof fn lemma_zig_decompose(w: int, h: int, x: int, y: int)
    requires
        0 <= x < w,
        0 <= y < h,
        w % 128 == 0,
        h % 8 == 0,
    ensures
        0 <= (y / 8) * (w / 128) + x / 128,
        x / 128 < w / 128,
        y / 8 < h / 8,
        0 <= (y % 8) * 128 + x % 128 < 1024,
        ((y / 8) * (w / 128) + x / 128) * 1024 + (y % 8) * 128 + x % 128 < w * h,
{
    arith::lemma_box_coords(w, h, x, y);
}

impl Topology for Zig {
    open spec fn spec_size_ok(image_size: (u32, u32)) -> bool {
        &&& image_size.0 + 127 < 0x1_0000_0000
        &&& image_size.1 + 7 < 0x1_0000_0000
        &&& Self::spec_buffer_size(image_size) <= usize::MAX
    }

    open spec fn spec_aligned(image_size: (u32, u32)) -> bool {
        image_size.0 % 128 == 0 && image_size.1 % 8 == 0
    }

    open spec fn spec_buffer_size(image_size: (u32, u32)) -> nat {
        let w = image_size.0 as int;
        let h = image_size.1 as int;
        let pw = if w % 128 == 0 {
            w
        } else {
            (w / 128 + 1) * 128
        };
        let ph = if h % 8 == 0 {
            h
        } else {
            (h / 8 + 1) * 8
        };
        (pw * ph) as nat
    }

    open spec fn spec_offset(image_size: (u32, u32), position: (u32, u32)) -> int {
        zig_offset(image_size.0, position.0 as int, position.1 as int)
    }

    open spec fn spec_position(image_size: (u32, u32), offset: int) -> (int, int) {
        let across = image_size.0 as int / 128;
        let tile_num = offset / 1024;
        let tile_offset = offset % 1024;
        ((tile_num % across) * 128 + tile_offset % 128, (tile_num / across) * 8 + tile_offset
            / 128)
    }

    fn buffer_size(image_size: (u32, u32)) -> usize {
        let (width, height) = image_size;
        let pw: usize = if width % 128 == 0 {
            width as usize
        } else {
            ((width / 128) as usize + 1) * 128
        };
        let ph: usize = if height % 8 == 0 {
            height as usize
        } else {
            ((height / 8) as usize + 1) * 8
        };
        proof {
            arith::lemma_pad_up(width as int, 128);
            arith::lemma_pad_up(height as int, 8);
            assert(pw * ph == Self::spec_buffer_size(image_size));
        }
        pw * ph
    }

    fn get_offset(image_size: (u32, u32), position: (u32, u32)) -> usize {
        let (width, height) = image_size;
        let (x, y) = position;
        proof {
            lemma_zig_decompose(width as int, height as int, x as int, y as int);
            arith::lemma_rowmajor_in_grid(x as int, y as int, width as int, height as int);
        }
        let tiles_across = (width / 128) as usize;
        let tile_x = (x / 128) as usize;
        let inner_x = (x % 128) as usize;
        let tile_y = (y / 8) as usize;
        let inner_y = (y % 8) as usize;
        let mut idx: usize = tile_y * tiles_across + tile_x;
        proof {
            assert(idx * 1024 + inner_y * 128 + inner_x < (width * height) as int);
        }
        idx = idx * 1024;
        idx = idx + inner_y * 128 + inner_x;
        idx
    }

    fn get_position(image_size: (u32, u32), offset: usize) -> (r: (u32, u32)) {
        let (width, height) = image_size;
        let tile_num = offset / 1024;
        let tile_offset = offset % 1024;
        let tiles_across = (width / 128) as usize;
        proof {
            Self::lemma_offset_roundtrip(image_size, offset as int);
            arith::lemma_div_nonneg(offset as int, 1024);
        }
        let maj_x = tile_num % tiles_across;
        let maj_y = tile_num / tiles_across;
        let (min_x, min_y) = Lines::get_position((128, 8), tile_offset);
        ((maj_x as u32) * 128 + min_x, (maj_y as u32) * 8 + min_y)
    }

    proof fn lemma_roundtrip(image_size: (u32, u32), position: (u32, u32)) {
        let w = image_size.0 as int;
        let h = image_size.1 as int;
        let x = position.0 as int;
        let y = position.1 as int;
        lemma_zig_decompose(w, h, x, y);
        let across = w / 128;
        let q = (y / 8) * across + x / 128;
        let inner = (y % 8) * 128 + x % 128;
        let off = q * 1024 + inner;
        arith::lemma_div_mod_unique(off, 1024, q, inner);
        arith::lemma_div_mod_unique(q, across, y / 8, x / 128);
        arith::lemma_div_mod_unique(inner, 128, y % 8, x % 128);
        arith::lemma_div_mod_recompose(x, 128);
        arith::lemma_div_mod_recompose(y, 8);
    }

    proof fn lemma_offset_roundtrip(image_size: (u32, u32), offset: int) {
        let w = image_size.0 as int;
        let h = image_size.1 as int;
        let across = w / 128;
        let q = offset / 1024;
        let inner = offset % 1024;
        arith::lemma_div_mod_recompose(offset, 1024);
        arith::lemma_div_mod_recompose(w, 128);
        arith::lemma_div_mod_recompose(h, 8);
        arith::lemma_div_nonneg(w, 128);
        arith::lemma_div_nonneg(h, 8);
        assert(w * h == ((h / 8) * across) * 1024) by (nonlinear_arith)
            requires
                w == (w / 128) * 128,
                h == (h / 8) * 8,
                across == w / 128,
        ;
        assert(0 < w) by (nonlinear_arith)
            requires
                0 <= offset < w * h,
                0 <= h,
        ;
        arith::lemma_div_strict_bound(offset, (h / 8) * across, 1024);
        assert(0 < across) by (nonlinear_arith)
            requires
                0 < w,
                w == across * 128,
        ;
        arith::lemma_div_mod_recompose(q, across);
        arith::lemma_div_mod_recompose(inner, 128);
        let tx = q % across;
        let ty = q / across;
        let ix = inner % 128;
        let iy = inner / 128;
        let x = tx * 128 + ix;
        let y = ty * 8 + iy;
        assert(0 <= x < w && 0 <= y < h && iy < 8) by (nonlinear_arith)
            requires
                w % 128 == 0,
                h % 8 == 0,
                0 <= tx < across,
                across == w / 128,
                0 <= ix < 128,
                0 <= iy,
                inner < 1024,
                iy == inner / 128,
                0 <= ty,
                ty == q / across,
                q < (h / 8) * across,
                x == tx * 128 + ix,
                y == ty * 8 + iy,
        ;
        arith::lemma_div_mod_unique(x, 128, tx, ix);
        arith::lemma_div_mod_unique(y, 8, ty, iy);
        assert(zig_offset(image_size.0, x, y) == offset) by (nonlinear_arith)
            requires
                zig_offset(image_size.0, x, y) == ((y / 8) * (w / 128) + x / 128) * 1024 + (y % 8)
                    * 128 + x % 128,
                x / 128 == tx,
                x % 128 == ix,
                y / 8 == ty,
                y % 8 == iy,
                across == w / 128,
                q == ty * across + tx,
                inner == iy * 128 + ix,
                offset == q * 1024 + inner,
        ;
    }
}

/// Plain row-major order.
pub struct Lines;

impl Topology for Lines {
    open spec fn spec_size_ok(image_size: (u32, u32)) -> bool {
        image_size.0 * image_size.1 <= usize::MAX
    }

    open spec fn spec_aligned(image_size: (u32, u32)) -> bool {
        true
    }

    open spec fn spec_buffer_size(image_size: (u32, u32)) -> nat {
        (image_size.0 * image_size.1) as nat
    }

    open spec fn spec_offset(image_size: (u32, u32), position: (u32, u32)) -> int {
        position.0 + position.1 * image_size.0
    }

    open spec fn spec_position(image_size: (u32, u32), offset: int) -> (int, int) {
        (offset % (image_size.0 as int), offset / (image_size.0 as int))
    }

    fn buffer_size(image_size: (u32, u32)) -> usize {
        (image_size.0 as usize) * (image_size.1 as usize)
    }

    fn get_offset(image_size: (u32, u32), position: (u32, u32)) -> usize {
        proof {
            arith::lemma_rowmajor_in_grid(
                position.0 as int,
                position.1 as int,
                image_size.0 as int,
                image_size.1 as int,
            );
        }
        (position.0 as usize) + (position.1 as usize) * (image_size.0 as usize)
    }

    fn get_position(image_size: (u32, u32), offset: usize) -> (r: (u32, u32)) {
        let w = image_size.0 as usize;
        proof {
            assert(0 < w) by (nonlinear_arith)
                requires
                    offset < image_size.0 * image_size.1,
                    0 <= offset,
                    w == image_size.0,
            ;
            arith::lemma_div_strict_bound(offset as int, image_size.1 as int, w as int);
            arith::lemma_div_mod_recompose(offset as int, w as int);
        }
        ((offset % w) as u32, (offset / w) as u32)
    }

    proof fn lemma_roundtrip(image_size: (u32, u32), position: (u32, u32)) {
        let w = image_size.0 as int;
        let h = image_size.1 as int;
        let x = position.0 as int;
        let y = position.1 as int;
        arith::lemma_rowmajor_in_grid(x, y, w, h);
        arith::lemma_div_mod_unique(x + y * w, w, y, x);
    }

    proof fn lemma_offset_roundtrip(image_size: (u32, u32), offset: int) {
        let w = image_size.0 as int;
        let h = image_size.1 as int;
        assert(0 < w) by (nonlinear_arith)
            requires
                0 <= offset < w * h,
                0 <= h,
        ;
        arith::lemma_div_mod_recompose(offset, w);
        arith::lemma_div_strict_bound(offset, h, w);
    }
}

} // verus!
