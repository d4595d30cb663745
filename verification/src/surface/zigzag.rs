//! The zigzag addressing scheme of the tiled surface: 128 x 8 boxes stored
//! contiguously, boxes enumerated row-major, row-major inside each box.

use vstd::prelude::*;

use crate::arith;

verus! {

/// The linear index of `(x, y)` in a buffer of `width`-wide rows grouped
/// into 128 x 8 boxes.
pub open spec fn spec_to_idx(width: int, x: int, y: int) -> int {
    ((y / 8) * (width / 128) + x / 128) * 1024 + (y % 8) * 128 + x % 128
}

/// The coordinate stored at linear index `idx`.
pub open spec fn spec_to_coord(width: int, idx: int) -> (int, int) {
    let across = width / 128;
    let box_idx = idx / 1024;
    let inner = idx % 1024;
    ((box_idx % across) * 128 + inner % 128, (box_idx / across) * 8 + inner / 128)
}

/// Shared facts about one coordinate's box decomposition.
proof fn lemma_box_decompose(w: int, h: int, x: int, y: int)
    requires
        0 <= x < w,
        0 <= y < h,
        w % 128 == 0,
        h % 8 == 0,
    ensures
        0 <= (y / 8) * (w / 128) + x / 128,
        x / 128 < w / 128,
        y / 8 < h / 8,
        0 <= (y % 8) * 128 + x % 128 < 1024,
        0 <= spec_to_idx(w, x, y) < w * h,
{
    arith::lemma_box_coords(w, h, x, y);
}

/// The zigzag index of every in-bounds coordinate lies inside the `w * h`
/// buffer, and converting back recovers the coordinate.
pub proof fn lemma_to_idx_to_coord(w: int, h: int, x: int, y: int)
    requires
        0 <= x < w,
        0 <= y < h,
        w % 128 == 0,
        h % 8 == 0,
    ensures
        0 <= spec_to_idx(w, x, y) < w * h,
        spec_to_coord(w, spec_to_idx(w, x, y)) == (x, y),
{
    lemma_box_decompose(w, h, x, y);
    let across = w / 128;
    let q = (y / 8) * across + x / 128;
    let inner = (y % 8) * 128 + x % 128;
    arith::lemma_div_mod_unique(q * 1024 + inner, 1024, q, inner);
    arith::lemma_div_mod_unique(q, across, y / 8, x / 128);
    arith::lemma_div_mod_unique(inner, 128, y % 8, x % 128);
    arith::lemma_div_mod_recompose(x, 128);
    arith::lemma_div_mod_recompose(y, 8);
}

/// Conversely, every in-buffer index names an in-bounds coordinate whose
/// index it is.
pub proof fn lemma_to_coord_to_idx(w: int, h: int, idx: int)
    requires
        0 <= idx < w * h,
        0 <= w,
        0 <= h,
        w % 128 == 0,
        h % 8 == 0,
    ensures
        ({
            let (x, y) = spec_to_coord(w, idx);
            &&& 0 <= x < w
            &&& 0 <= y < h
            &&& spec_to_idx(w, x, y) == idx
        }),
{
    let across = w / 128;
    let q = idx / 1024;
    let inner = idx % 1024;
    arith::lemma_div_mod_recompose(idx, 1024);
    arith::lemma_div_mod_recompose(w, 128);
    arith::lemma_div_mod_recompose(h, 8);
    arith::lemma_div_nonneg(w, 128);
    arith::lemma_div_nonneg(h, 8);
    assert(w * h == ((h / 8) * across) * 1024) by (nonlinear_arith)
        requires
            w == (w / 128) * 128,
            h == (h / 8) * 8,
            across == w / 128,
    ;
    assert(0 < w) by (nonlinear_arith)
        requires
            0 <= idx < w * h,
            0 <= h,
    ;
    arith::lemma_div_strict_bound(idx, (h / 8) * across, 1024);
    assert(0 < across) by (nonlinear_arith)
        requires
            0 < w,
            w == across * 128,
    ;
    arith::lemma_div_mod_recompose(q, across);
    arith::lemma_div_mod_recompose(inner, 128);
    let tx = q % across;
    let ty = q / across;
    let ix = inner % 128;
    let iy = inner / 128;
    let x = tx * 128 + ix;
    let y = ty * 8 + iy;
    assert(0 <= x < w && 0 <= y < h && iy < 8) by (nonlinear_arith)
        requires
            w % 128 == 0,
            h % 8 == 0,
            0 <= tx < across,
            across == w / 128,
            0 <= ix < 128,
            0 <= iy,
            inner < 1024,
            iy == inner / 128,
            0 <= ty,
            ty == q / across,
            q < (h / 8) * across,
            x == tx * 128 + ix,
            y == ty * 8 + iy,
    ;
    arith::lemma_div_mod_unique(x, 128, tx, ix);
    arith::lemma_div_mod_unique(y, 8, ty, iy);
    assert(spec_to_idx(w, x, y) == idx) by (nonlinear_arith)
        requires
            spec_to_idx(w, x, y) == ((y / 8) * (w / 128) + x / 128) * 1024 + (y % 8) * 128 + x
                % 128,
            x / 128 == tx,
            x % 128 == ix,
            y / 8 == ty,
            y % 8 == iy,
            across == w / 128,
            q == ty * across + tx,
            inner == iy * 128 + ix,
            idx == q * 1024 + inner,
    ;
}

/// The zigzag index of a coordinate inside a box-aligned `width x height`
/// buffer.
pub fn to_idx(orig_size: (usize, usize), coord: (usize, usize)) -> (r: usize)
    requires
        orig_size.0 % 128 == 0,
        orig_size.1 % 8 == 0,
        orig_size.0 * orig_size.1 <= usize::MAX,
        coord.0 < orig_size.0,
        coord.1 < orig_size.1,
    ensures
        r == spec_to_idx(orig_size.0 as int, coord.0 as int, coord.1 as int),
        r < orig_size.0 * orig_size.1,
{
    let (width, _height) = orig_size;
    let (x, y) = coord;
    proof {
        lemma_box_decompose(
            width as int,
            orig_size.1 as int,
            x as int,
            y as int,
        );
    }
    let boxes_across = width / 128;
    let box_x = x / 128;
    let box_y = y / 8;
    let inner_x = x % 128;
    let inner_y = y % 8;
    let mut idx: usize = box_y * boxes_across + box_x;
    proof {
        assert(idx * 1024 + inner_y * 128 + inner_x < (orig_size.0 * orig_size.1) as int);
    }
    idx = idx * 1024;
    idx = idx + inner_y * 128 + inner_x;
    idx
}

/// The coordinate stored at a zigzag index of a box-aligned buffer.
pub fn to_coord(orig_size: (usize, usize), idx: usize) -> (r: (usize, usize))
    requires
        orig_size.0 % 128 == 0,
        orig_size.1 % 8 == 0,
        idx < orig_size.0 * orig_size.1,
    ensures
        (r.0 as int, r.1 as int) == spec_to_coord(orig_size.0 as int, idx as int),
        r.0 < orig_size.0,
        r.1 < orig_size.1,
{
    let (width, _height) = orig_size;
    proof {
        lemma_to_coord_to_idx(width as int, orig_size.1 as int, idx as int);
    }
    let boxes_across = width / 128;
    let box_idx = idx / 1024;
    let inner = idx % 1024;
    let box_x = box_idx % boxes_across;
    let box_y = box_idx / boxes_across;
    let inner_x = inner % 128;
    let inner_y = inner / 128;
    (box_x * 128 + inner_x, box_y * 8 + inner_y)
}

} // verus!
