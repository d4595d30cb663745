//! The cache-tiled surface: a pixel buffer stored in zigzag (box-major)
//! order, over-rendered up to a whole number of 128 x 8 boxes, and divisible
//! into independent tiles.

use vstd::prelude::*;

use crate::arith;
use crate::colorspace::Colorspace;

pub mod zigzag;

verus! {

/// An axis-aligned rectangle of pixel coordinates.
#[derive(Debug, Clone, Copy, PartialEq, Eq, Structural)]
pub struct Rect {
    pub left: usize,
    pub width: usize,
    pub top: usize,
    pub height: usize,
}

/// A plain width and height.
#[derive(Debug, Clone, Copy, PartialEq, Eq, Structural)]
pub struct Size {
    pub width: usize,
    pub height: usize,
}

/// `n` rounded up to the next multiple of `t`.
pub open spec fn pad_to(n: int, t: int) -> int {
    if n % t == 0 {
        n
    } else {
        (n / t + 1) * t
    }
}

/// What rounding up does: it lands on a multiple and moves by less than `t`.
pub proof fn lemma_pad_props(n: int, t: int)
    requires
        0 <= n,
        0 < t,
    ensures
        pad_to(n, t) % t == 0,
        n <= pad_to(n, t) <= n + t - 1,
        pad_to(n, t) / t * t == pad_to(n, t),
{
    arith::lemma_pad_up(n, t);
    arith::lemma_div_mod_recompose(n, t);
    arith::lemma_div_mod_recompose(pad_to(n, t), t);
}

/// Does the rectangle contain the coordinate?
pub open spec fn rect_contains(r: Rect, x: int, y: int) -> bool {
    &&& r.left <= x < r.left + r.width
    &&& r.top <= y < r.top + r.height
}

/// `number` rounded up to the next multiple of `align_to`.
pub fn align_number(number: usize, align_to: usize) -> (r: usize)
    requires
        0 < align_to,
        number + align_to <= usize::MAX,
    ensures
        r == pad_to(number as int, align_to as int),
{
    proof {
        lemma_pad_props(number as int, align_to as int);
    }
    let mut divisions = number / align_to;
    if number % align_to > 0 {
        divisions += 1;
    }
    divisions * align_to
}

impl Rect {
    /// The rectangle grown to whole 128 x 8 boxes. Only origin rectangles
    /// are tiled.
    pub fn overrender(&self) -> (r: Rect)
        requires
            self.top == 0,
            self.left == 0,
            self.width + 128 <= usize::MAX,
            self.height + 8 <= usize::MAX,
        ensures
            r.left == 0,
            r.top == 0,
            r.width == pad_to(self.width as int, 128),
            r.height == pad_to(self.height as int, 8),
    {
        proof {
            lemma_pad_props(self.width as int, 128);
            lemma_pad_props(self.height as int, 8);
            arith::lemma_div_mod_recompose(self.width as int, 128);
            arith::lemma_div_mod_recompose(self.height as int, 8);
        }
        let mut width = self.width;
        let width_partial_tile = width % 128;
        if width_partial_tile > 0 {
            width -= width_partial_tile;
            width += 128;
        }
        let mut height = self.height;
        let height_partial_tile = height % 8;
        if height_partial_tile > 0 {
            height -= height_partial_tile;
            height += 8;
        }
        Rect { left: self.left, width, top: self.top, height }
    }
}

/// How many boxes across a surface of logical width `w` spans.
pub open spec fn spec_tiles_across(w: int) -> int {
    pad_to(w, 128) / 128
}

/// How many boxes down a surface of logical height `h` spans.
pub open spec fn spec_tiles_down(h: int) -> int {
    pad_to(h, 8) / 8
}

/// The `k`-th tile rectangle of a `w x h` surface, in row-major tile order,
/// clipped to the logical image.
#[verifier::opaque]
pub open spec fn spec_tile_rect(w: int, h: int, k: int) -> Rect {
    let across = spec_tiles_across(w);
    let left = (k % across) * 128;
    let top = (k / across) * 8;
    Rect {
        left: left as usize,
        width: (if w - left < 128 {
            w - left
        } else {
            128
        }) as usize,
        top: top as usize,
        height: (if h - top < 8 {
            h - top
        } else {
            8
        }) as usize,
    }
}

/// Every in-bounds coordinate lies in exactly one clipped tile rectangle:
/// the tile rectangles partition the image.
#[verifier::spinoff_prover]
#[verifier::rlimit(30)]
pub proof fn lemma_tiles_partition(w: int, h: int, px: int, py: int)
    requires
        0 <= px < w,
        0 <= py < h,
        w + 127 <= usize::MAX,
        h + 7 <= usize::MAX,
    ensures
        ({
            let across = spec_tiles_across(w);
            let k = (py / 8) * across + px / 128;
            &&& 0 <= k < spec_tiles_down(h) * across
            &&& rect_contains(spec_tile_rect(w, h, k), px, py)
            &&& forall|k2: int|
                0 <= k2 < spec_tiles_down(h) * across && rect_contains(
                    #[trigger] spec_tile_rect(w, h, k2),
                    px,
                    py,
                ) ==> k2 == k
        }),
{
    reveal(spec_tile_rect);
    lemma_pad_props(w, 128);
    lemma_pad_props(h, 8);
    let across = spec_tiles_across(w);
    let down = spec_tiles_down(h);
    let tx = px / 128;
    let ty = py / 8;
    arith::lemma_div_mod_recompose(px, 128);
    arith::lemma_div_mod_recompose(py, 8);
    arith::lemma_div_strict_bound(px, across, 128);
    arith::lemma_div_strict_bound(py, down, 8);
    arith::lemma_rowmajor_in_grid(tx, ty, across, down);
    let k = ty * across + tx;
    arith::lemma_div_mod_unique(k, across, ty, tx);
    assert(0 <= tx * 128 <= px && 0 <= ty * 8 <= py) by (nonlinear_arith)
        requires
            px == tx * 128 + px % 128,
            py == ty * 8 + py % 8,
            0 <= px % 128,
            0 <= py % 8,
            0 <= tx,
            0 <= ty,
    ;
    assert(rect_contains(spec_tile_rect(w, h, k), px, py));
    assert forall|k2: int|
        0 <= k2 < down * across && rect_contains(#[trigger] spec_tile_rect(w, h, k2), px, py)
        implies k2 == k by {
        let tx2 = k2 % across;
        let ty2 = k2 / across;
        arith::lemma_div_mod_recompose(k2, across);
        arith::lemma_div_nonneg(k2, across);
        assert(ty2 < down) by (nonlinear_arith)
            requires
                0 <= k2 < down * across,
                k2 == ty2 * across + tx2,
                0 <= tx2 < across,
                0 <= ty2,
                0 < across,
        ;
        assert(0 <= tx2 * 128 <= pad_to(w, 128) - 128 && 0 <= ty2 * 8 <= pad_to(h, 8) - 8)
            by (nonlinear_arith)
            requires
                0 <= tx2 < across,
                0 <= ty2 < down,
                across * 128 == pad_to(w, 128),
                down * 8 == pad_to(h, 8),
        ;
        arith::lemma_div_mod_unique(px, 128, tx2, px - tx2 * 128);
        arith::lemma_div_mod_unique(py, 8, ty2, py - ty2 * 8);
    }
}

/// The coordinates inside a clipped tile rectangle, row-major: `x` varies
/// fastest, so entry `i` is `(left + i % width, top + i / width)`.
pub fn tile_coords(location: Rect) -> (r: Vec<(usize, usize)>)
    requires
        location.left + location.width <= usize::MAX,
        location.top + location.height <= usize::MAX,
        location.width * location.height <= usize::MAX,
    ensures
        r@.len() == location.width * location.height,
        forall|i: int|
            0 <= i < r@.len() ==> #[trigger] r@[i] == (
                (location.left + (i % (location.width as int))) as usize,
                (location.top + (i / (location.width as int))) as usize,
            ),
{
    let w = location.width;
    let h = location.height;
    let mut out: Vec<(usize, usize)> = Vec::new();
    let mut y: usize = 0;
    while y < h
        invariant
            y <= h,
            w == location.width,
            h == location.height,
            location.left + w <= usize::MAX,
            location.top + h <= usize::MAX,
            w * h <= usize::MAX,
            out@.len() == y * w,
            y * w <= h * w,
            forall|i: int|
                0 <= i < out@.len() ==> #[trigger] out@[i] == (
                    (location.left + (i % (w as int))) as usize,
                    (location.top + (i / (w as int))) as usize,
                ),
        decreases h - y,
    {
        let mut x: usize = 0;
        while x < w
            invariant
                y < h,
                x <= w,
                w == location.width,
                h == location.height,
                location.left + w <= usize::MAX,
                location.top + h <= usize::MAX,
                w * h <= usize::MAX,
                out@.len() == y * w + x,
                y * w + x <= h * w,
                forall|i: int|
                    0 <= i < out@.len() ==> #[trigger] out@[i] == (
                        (location.left + (i % (w as int))) as usize,
                        (location.top + (i / (w as int))) as usize,
                    ),
            decreases w - x,
        {
            out.push((location.left + x, location.top + y));
            proof {
                arith::lemma_div_mod_unique(y as int * w + x, w as int, y as int, x as int);
                arith::lemma_rowmajor_in_grid(x as int, y as int, w as int, h as int);
                assert(y as int * w + x + 1 <= (h as int) * w) by (nonlinear_arith)
                    requires
                        y as int * w + x < (w as int) * h,
                ;
            }
            x += 1;
        }
        y += 1;
        proof {
            assert(y as int * w == (y as int - 1) * w + w) by (nonlinear_arith);
            assert(y as int * w <= (h as int) * w) by (nonlinear_arith)
                requires
                    y <= h,
                    0 <= w,
            ;
        }
    }
    proof {
        assert(h as int * w == (w as int) * h) by (nonlinear_arith);
    }
    out
}

/// A pixel buffer in zigzag order, padded to whole boxes; the logical image
/// is the `rect`, the padded size the `align_size`.
#[derive(Clone)]
pub struct Surface<CS> {
    rect: Rect,
    align_size: Size,
    background: CS,
    buffer: Vec<CS>,
}

impl<CS: Colorspace> Surface<CS> {
    /// The raw buffer contents, zigzag order, padding included.
    pub closed spec fn spec_buffer(&self) -> Seq<CS> {
        self.buffer@
    }

    /// The logical image rectangle.
    pub closed spec fn spec_rect(&self) -> Rect {
        self.rect
    }

    /// The padded dimensions.
    pub closed spec fn spec_align_size(&self) -> Size {
        self.align_size
    }

    /// The background color the surface was created with.
    pub closed spec fn spec_background(&self) -> CS {
        self.background
    }

    pub open spec fn wf(&self) -> bool {
        &&& self.spec_rect().top == 0
        &&& self.spec_rect().left == 0
        &&& self.spec_align_size().width == pad_to(self.spec_rect().width as int, 128)
        &&& self.spec_align_size().height == pad_to(self.spec_rect().height as int, 8)
        &&& self.spec_align_size().width % 128 == 0
        &&& self.spec_align_size().height % 8 == 0
        &&& self.spec_align_size().width * self.spec_align_size().height <= usize::MAX
        &&& self.spec_buffer().len() == self.spec_align_size().width * self.spec_align_size().height
    }

    /// Allocate a `width x height` surface filled with `background`,
    /// over-rendered up to whole boxes.
    pub fn new(width: usize, height: usize, background: CS) -> (r: Surface<CS>)
        requires
            width + 128 <= usize::MAX,
            height + 8 <= usize::MAX,
            pad_to(width as int, 128) * pad_to(height as int, 8) <= usize::MAX,
        ensures
            r.wf(),
            r.spec_rect() == (Rect { left: 0, width, top: 0, height }),
            r.spec_background() == background,
            r.spec_buffer() == Seq::new(
                (pad_to(width as int, 128) * pad_to(height as int, 8)) as nat,
                |i: int| background,
            ),
    {
        proof {
            lemma_pad_props(width as int, 128);
            lemma_pad_props(height as int, 8);
        }
        let align_width = align_number(width, 128);
        let align_height = align_number(height, 8);
        proof {
            arith::lemma_mul_le(
                align_width as int,
                align_width as int,
                0,
                align_height as int,
            );
        }
        let total = align_width * align_height;
        let mut buffer: Vec<CS> = Vec::new();
        let mut i: usize = 0;
        while i < total
            invariant
                i <= total,
                buffer@.len() == i,
                forall|j: int| 0 <= j < i ==> buffer@[j] == background,
            decreases total - i,
        {
            buffer.push(background);
            i += 1;
        }
        proof {
            assert(buffer@ =~= Seq::new(
                (pad_to(width as int, 128) * pad_to(height as int, 8)) as nat,
                |i: int| background,
            ));
        }
        Surface {
            rect: Rect { top: 0, height, left: 0, width },
            align_size: Size { width: align_width, height: align_height },
            background,
            buffer,
        }
    }

    /// A surface filled with the colorspace's black.
    pub fn new_black(width: usize, height: usize) -> (r: Surface<CS>)
        requires
            width + 128 <= usize::MAX,
            height + 8 <= usize::MAX,
            pad_to(width as int, 128) * pad_to(height as int, 8) <= usize::MAX,
        ensures
            r.wf(),
            r.spec_rect() == (Rect { left: 0, width, top: 0, height }),
            r.spec_background() == CS::spec_black(),
            r.spec_buffer() == Seq::new(
                (pad_to(width as int, 128) * pad_to(height as int, 8)) as nat,
                |i: int| CS::spec_black(),
            ),
    {
        Surface::new(width, height, CS::black())
    }

    pub fn width(&self) -> (r: usize)
        ensures
            r == self.spec_rect().width,
    {
        self.rect.width
    }

    pub fn height(&self) -> (r: usize)
        ensures
            r == self.spec_rect().height,
    {
        self.rect.height
    }

    /// Elements in the backing buffer, padding included.
    pub fn pixel_count(&self) -> (r: usize)
        ensures
            r == self.spec_buffer().len(),
    {
        self.buffer.len()
    }

    /// The padded dimensions.
    pub fn overrender_size(&self) -> (r: (usize, usize))
        ensures
            r == (self.spec_align_size().width, self.spec_align_size().height),
    {
        (self.align_size.width, self.align_size.height)
    }

    /// The raw buffer, zigzag order, padding included.
    pub fn pixels_raw(&self) -> (r: &Vec<CS>)
        ensures
            r@ == self.spec_buffer(),
    {
        &self.buffer
    }

    /// The raw buffer, zigzag order, padding included.
    pub fn iter_pixels(&self) -> (r: &Vec<CS>)
        ensures
            r@ == self.spec_buffer(),
    {
        &self.buffer
    }

    /// The pixel at `(x, y)` of the logical image.
    pub fn get(&self, x: usize, y: usize) -> (r: CS)
        requires
            self.wf(),
            x < self.spec_rect().width,
            y < self.spec_rect().height,
        ensures
            r == self.spec_buffer()[zigzag::spec_to_idx(
                self.spec_align_size().width as int,
                x as int,
                y as int,
            )],
    {
        let orig_size = (self.align_size.width, self.align_size.height);
        proof {
            lemma_pad_props(self.spec_rect().width as int, 128);
            lemma_pad_props(self.spec_rect().height as int, 8);
        }
        let idx = zigzag::to_idx(orig_size, (x, y));
        self.buffer[idx]
    }

    /// Overwrite the pixel at `(x, y)` of the logical image.
    pub fn set(&mut self, x: usize, y: usize, value: CS)
        requires
            old(self).wf(),
            x < old(self).spec_rect().width,
            y < old(self).spec_rect().height,
        ensures
            final(self).wf(),
            final(self).spec_rect() == old(self).spec_rect(),
            final(self).spec_align_size() == old(self).spec_align_size(),
            final(self).spec_background() == old(self).spec_background(),
            final(self).spec_buffer() == old(self).spec_buffer().update(
                zigzag::spec_to_idx(old(self).spec_align_size().width as int, x as int, y as int),
                value,
            ),
    {
        let orig_size = (self.align_size.width, self.align_size.height);
        proof {
            lemma_pad_props(self.spec_rect().width as int, 128);
            lemma_pad_props(self.spec_rect().height as int, 8);
        }
        let idx = zigzag::to_idx(orig_size, (x, y));
        self.buffer.set(idx, value);
    }

    /// The logical pixels, copied out in column-major order: `x` outermost,
    /// then `y`.
    pub fn pixels(&self) -> (r: Vec<CS>)
        requires
            self.wf(),
        ensures
            r@.len() == self.spec_rect().width * self.spec_rect().height,
            forall|x: int, y: int|
                0 <= x < self.spec_rect().width && 0 <= y < self.spec_rect().height ==> r@[x * (
                self.spec_rect().height as int) + y] == self.spec_buffer()[#[trigger] zigzag::spec_to_idx(
                    self.spec_align_size().width as int,
                    x,
                    y,
                )],
    {
        let w = self.rect.width;
        let h = self.rect.height;
        proof {
            arith::lemma_mul_le(w as int, pad_to(w as int, 128), h as int, pad_to(h as int, 8));
            lemma_pad_props(w as int, 128);
            lemma_pad_props(h as int, 8);
        }
        let mut out: Vec<CS> = Vec::new();
        let mut x: usize = 0;
        while x < w
            invariant
                self.wf(),
                x <= w,
                w == self.spec_rect().width,
                h == self.spec_rect().height,
                out@.len() == x * h,
                forall|xx: int, yy: int|
                    0 <= xx < x && 0 <= yy < h ==> out@[xx * (h as int) + yy]
                        == self.spec_buffer()[#[trigger] zigzag::spec_to_idx(
                        self.spec_align_size().width as int,
                        xx,
                        yy,
                    )],
            decreases w - x,
        {
            let mut y: usize = 0;
            while y < h
                invariant
                    self.wf(),
                    x < w,
                    y <= h,
                    w == self.spec_rect().width,
                    h == self.spec_rect().height,
                    out@.len() == x * h + y,
                    forall|xx: int, yy: int|
                        0 <= xx < x && 0 <= yy < h ==> out@[xx * (h as int) + yy]
                            == self.spec_buffer()[#[trigger] zigzag::spec_to_idx(
                            self.spec_align_size().width as int,
                            xx,
                            yy,
                        )],
                    forall|yy: int|
                        0 <= yy < y ==> out@[x as int * (h as int) + yy]
                            == self.spec_buffer()[#[trigger] zigzag::spec_to_idx(
                            self.spec_align_size().width as int,
                            x as int,
                            yy,
                        )],
                decreases h - y,
            {
                let px = self.get(x, y);
                out.push(px);
                proof {
                    assert forall|xx: int, yy: int| 0 <= xx < x && 0 <= yy < h implies #[trigger] (
                    xx * (h as int) + yy) < x as int * h + y by {
                        assert(xx * (h as int) + yy < x as int * h) by (nonlinear_arith)
                            requires
                                0 <= xx < x,
                                0 <= yy < h,
                        ;
                    }
                }
                y += 1;
            }
            x += 1;
            proof {
                assert(x as int * h == (x as int - 1) * h + h) by (nonlinear_arith);
            }
        }
        proof {
            assert(w as int * h == (w as int) * (h as int));
        }
        out
    }

    /// Split into read-only tiles: tile `k` carries its clipped rectangle
    /// and a copy of box `k` of the buffer.
    pub fn divide(&self) -> (r: Tiles<CS>)
        requires
            self.wf(),
        ensures
            r.spec_tiles().len() == spec_tiles_down(self.spec_rect().height as int)
                * spec_tiles_across(self.spec_rect().width as int),
            forall|k: int|
                0 <= k < r.spec_tiles().len() ==> (#[trigger] r.spec_tiles()[k]).spec_location()
                    == spec_tile_rect(
                    self.spec_rect().width as int,
                    self.spec_rect().height as int,
                    k,
                ) && r.spec_tiles()[k].spec_backing() == self.spec_buffer().subrange(
                    k * 1024,
                    k * 1024 + 1024,
                ),
    {
        let w = self.rect.width;
        let h = self.rect.height;
        proof {
            lemma_pad_props(w as int, 128);
            lemma_pad_props(h as int, 8);
            lemma_box_grid(w as int, h as int);
        }
        let across = self.align_size.width / 128;
        let down = self.align_size.height / 8;
        let count = down * across;
        let mut tiles: Vec<Tile<CS>> = Vec::new();
        let mut k: usize = 0;
        while k < count
            invariant
                self.wf(),
                k <= count,
                w == self.spec_rect().width,
                h == self.spec_rect().height,
                across == spec_tiles_across(w as int),
                down == spec_tiles_down(h as int),
                count == down * across,
                count * 1024 == self.spec_buffer().len(),
                tiles@.len() == k,
                forall|j: int|
                    0 <= j < k ==> (#[trigger] tiles@[j]).spec_location() == spec_tile_rect(
                        w as int,
                        h as int,
                        j,
                    ) && tiles@[j].spec_backing() == self.spec_buffer().subrange(
                        j * 1024,
                        j * 1024 + 1024,
                    ),
            decreases count - k,
        {
            proof {
                arith::lemma_rowmajor_in_grid(0, k as int, 1, count as int);
                assert((k as int + 1) * 1024 == k as int * 1024 + 1024) by (nonlinear_arith);
                assert(k as int * 1024 + 1024 <= count as int * 1024) by (nonlinear_arith)
                    requires
                        k as int + 1 <= count as int,
                ;
                assert(0 <= k as int * 1024) by (nonlinear_arith)
                    requires
                        0 <= k,
                ;
            }
            let location = self.tile_rect(k);
            let backing = vstd::slice::slice_to_vec(
                vstd::slice::slice_subrange(self.buffer.as_slice(), k * 1024, k * 1024 + 1024),
            );
            tiles.push(Tile { location, backing });
            k += 1;
        }
        Tiles { tiles, next: 0 }
    }

    /// The `k`-th clipped tile rectangle of this surface.
    pub fn tile_rect(&self, k: usize) -> (r: Rect)
        requires
            self.wf(),
            k < spec_tiles_down(self.spec_rect().height as int) * spec_tiles_across(
                self.spec_rect().width as int,
            ),
        ensures
            r == spec_tile_rect(self.spec_rect().width as int, self.spec_rect().height as int, k as int),
    {
        let w = self.rect.width;
        let h = self.rect.height;
        proof {
            lemma_pad_props(w as int, 128);
            lemma_pad_props(h as int, 8);
        }
        let across = self.align_size.width / 128;
        let down = self.align_size.height / 8;
        proof {
            assert(0 < across && 0 < down) by (nonlinear_arith)
                requires
                    0 <= k < down * across,
                    0 <= across,
                    0 <= down,
            ;
            arith::lemma_div_mod_recompose(k as int, across as int);
            arith::lemma_div_nonneg(k as int, across as int);
            assert(k as int / (across as int) < down) by (nonlinear_arith)
                requires
                    0 <= k < down * across,
                    k as int == (k as int / (across as int)) * across + k as int % (across as int),
                    0 <= k as int % (across as int) < across,
                    0 <= k as int / (across as int),
                    0 < across,
            ;
            assert((k as int % (across as int)) * 128 <= (across - 1) * 128 && (k as int / (across as int)) * 8 <= (
            down - 1) * 8) by (nonlinear_arith)
                requires
                    0 <= k as int % (across as int) < across,
                    0 <= k as int / (across as int) < down,
            ;
            assert((across - 1) * 128 == across * 128 - 128 && (down - 1) * 8 == down * 8 - 8)
                by (nonlinear_arith);
        }
        proof {
            reveal(spec_tile_rect);
        }
        let tx = k % across;
        let ty = k / across;
        let left = tx * 128;
        let top = ty * 8;
        let width = if w - left < 128 {
            w - left
        } else {
            128
        };
        let height = if h - top < 8 {
            h - top
        } else {
            8
        };
        Rect { left, width, top, height }
    }

    /// Split into mutable tiles, draining the backing buffer: the surface is
    /// empty until `restore_tiles` puts the (possibly modified) tiles back.
    pub fn divide_mut(&mut self) -> (r: Vec<TileMut<CS>>)
        requires
            old(self).wf(),
        ensures
            final(self).spec_rect() == old(self).spec_rect(),
            final(self).spec_align_size() == old(self).spec_align_size(),
            final(self).spec_background() == old(self).spec_background(),
            final(self).spec_buffer().len() == 0,
            r@.len() == spec_tiles_down(old(self).spec_rect().height as int) * spec_tiles_across(
                old(self).spec_rect().width as int,
            ),
            forall|k: int|
                0 <= k < r@.len() ==> (#[trigger] r@[k]).spec_location() == spec_tile_rect(
                    old(self).spec_rect().width as int,
                    old(self).spec_rect().height as int,
                    k,
                ) && r@[k].spec_backing() == old(self).spec_buffer().subrange(
                    k * 1024,
                    k * 1024 + 1024,
                ),
    {
        let w = self.rect.width;
        let h = self.rect.height;
        proof {
            lemma_pad_props(w as int, 128);
            lemma_pad_props(h as int, 8);
            lemma_box_grid(w as int, h as int);
        }
        let across = self.align_size.width / 128;
        let down = self.align_size.height / 8;
        let count = down * across;
        let mut tiles: Vec<TileMut<CS>> = Vec::new();
        let mut k: usize = 0;
        while k < count
            invariant
                self.wf(),
                k <= count,
                w == self.spec_rect().width,
                h == self.spec_rect().height,
                across == spec_tiles_across(w as int),
                down == spec_tiles_down(h as int),
                count == down * across,
                count * 1024 == self.spec_buffer().len(),
                tiles@.len() == k,
                forall|j: int|
                    0 <= j < k ==> (#[trigger] tiles@[j]).spec_location() == spec_tile_rect(
                        w as int,
                        h as int,
                        j,
                    ) && tiles@[j].spec_backing() == self.spec_buffer().subrange(
                        j * 1024,
                        j * 1024 + 1024,
                    ),
            decreases count - k,
        {
            proof {
                arith::lemma_rowmajor_in_grid(0, k as int, 1, count as int);
                assert((k as int + 1) * 1024 == k as int * 1024 + 1024) by (nonlinear_arith);
                assert(k as int * 1024 + 1024 <= count as int * 1024) by (nonlinear_arith)
                    requires
                        k as int + 1 <= count as int,
                ;
                assert(0 <= k as int * 1024) by (nonlinear_arith)
                    requires
                        0 <= k,
                ;
            }
            let location = self.tile_rect(k);
            let backing = vstd::slice::slice_to_vec(
                vstd::slice::slice_subrange(self.buffer.as_slice(), k * 1024, k * 1024 + 1024),
            );
            tiles.push(TileMut { location, backing });
            k += 1;
        }
        self.buffer = Vec::new();
        tiles
    }

    /// Reassemble the buffer from tiles handed out by `divide_mut`, in the
    /// same order.
    pub fn restore_tiles(&mut self, tiles: &Vec<TileMut<CS>>)
        requires
            old(self).spec_rect().top == 0,
            old(self).spec_rect().left == 0,
            old(self).spec_align_size().width == pad_to(old(self).spec_rect().width as int, 128),
            old(self).spec_align_size().height == pad_to(old(self).spec_rect().height as int, 8),
            old(self).spec_align_size().width % 128 == 0,
            old(self).spec_align_size().height % 8 == 0,
            old(self).spec_align_size().width * old(self).spec_align_size().height <= usize::MAX,
            tiles@.len() == spec_tiles_down(old(self).spec_rect().height as int)
                * spec_tiles_across(old(self).spec_rect().width as int),
            forall|k: int| 0 <= k < tiles@.len() ==> (#[trigger] tiles@[k]).spec_backing().len() == 1024,
        ensures
            final(self).wf(),
            final(self).spec_rect() == old(self).spec_rect(),
            final(self).spec_align_size() == old(self).spec_align_size(),
            final(self).spec_background() == old(self).spec_background(),
            final(self).spec_buffer().len() == tiles@.len() * 1024,
            forall|k: int, j: int|
                0 <= k < tiles@.len() && 0 <= j < 1024 ==> final(self).spec_buffer()[k * 1024 + j]
                    == (#[trigger] tiles@[k].spec_backing()[j]),
    {
        let w = self.rect.width;
        let h = self.rect.height;
        proof {
            lemma_pad_props(w as int, 128);
            lemma_pad_props(h as int, 8);
            lemma_box_grid(w as int, h as int);
        }
        let count = tiles.len();
        let mut buffer: Vec<CS> = Vec::new();
        let mut k: usize = 0;
        while k < count
            invariant
                k <= count,
                count == tiles@.len(),
                buffer@.len() == k * 1024,
                forall|j: int| 0 <= j < tiles@.len() ==> (#[trigger] tiles@[j]).spec_backing().len() == 1024,
                forall|kk: int, jj: int|
                    0 <= kk < k && 0 <= jj < 1024 ==> buffer@[kk * 1024 + jj] == (#[trigger] tiles@[
                        kk
                    ].spec_backing()[jj]),
            decreases count - k,
        {
            let tile = &tiles[k];
            let mut j: usize = 0;
            while j < 1024
                invariant
                    k < count,
                    count == tiles@.len(),
                    j <= 1024,
                    tile == tiles@[k as int],
                    tile.spec_backing().len() == 1024,
                    buffer@.len() == k * 1024 + j,
                    forall|jj: int| 0 <= jj < tiles@.len() ==> (#[trigger] tiles@[jj]).spec_backing().len() == 1024,
                    forall|kk: int, jj: int|
                        0 <= kk < k && 0 <= jj < 1024 ==> buffer@[kk * 1024 + jj] == (
                        #[trigger] tiles@[kk].spec_backing()[jj]),
                    forall|jj: int|
                        0 <= jj < j ==> buffer@[k as int * 1024 + jj] == tile.spec_backing()[jj],
                decreases 1024 - j,
            {
                buffer.push(tile.backing[j]);
                proof {
                    assert forall|kk: int, jj: int| 0 <= kk < k && 0 <= jj < 1024 implies #[trigger] (
                    kk * 1024 + jj) < k as int * 1024 + j by {
                        assert(kk * 1024 + jj < k as int * 1024) by (nonlinear_arith)
                            requires
                                0 <= kk < k,
                                0 <= jj < 1024,
                        ;
                    }
                }
                j += 1;
            }
            k += 1;
            proof {
                assert(k as int * 1024 == (k as int - 1) * 1024 + 1024) by (nonlinear_arith);
            }
        }
        self.buffer = buffer;
        proof {
            assert(count as int * 1024 == self.spec_align_size().width
                * self.spec_align_size().height);
        }
    }
}

/// The box grid of a padded surface covers its buffer exactly.
proof fn lemma_box_grid(w: int, h: int)
    requires
        0 <= w,
        0 <= h,
    ensures
        spec_tiles_down(h) * spec_tiles_across(w) * 1024 == pad_to(w, 128) * pad_to(h, 8),
        0 <= spec_tiles_down(h) * spec_tiles_across(w),
{
    lemma_pad_props(w, 128);
    lemma_pad_props(h, 8);
    let pw = pad_to(w, 128);
    let ph = pad_to(h, 8);
    assert((ph / 8) * (pw / 128) * 1024 == pw * ph && 0 <= (ph / 8) * (pw / 128))
        by (nonlinear_arith)
        requires
            pw == pw / 128 * 128,
            ph == ph / 8 * 8,
            0 <= pw,
            0 <= ph,
    ;
}

/// A read-only tile: a clipped rectangle of the image and a copy of its
/// 128 x 8 box, row-major inside the box.
pub struct Tile<CS> {
    location: Rect,
    backing: Vec<CS>,
}

impl<CS: Colorspace> Tile<CS> {
    pub closed spec fn spec_backing(&self) -> Seq<CS> {
        self.backing@
    }

    pub closed spec fn spec_location(&self) -> Rect {
        self.location
    }

    pub fn location(&self) -> (r: Rect)
        ensures
            r == self.spec_location(),
    {
        self.location
    }

    /// The pixel at absolute coordinate `coord`, which must lie inside this
    /// tile's rectangle.
    pub fn index(&self, coord: (usize, usize)) -> (r: CS)
        requires
            self.spec_backing().len() == 1024,
            rect_contains(self.spec_location(), coord.0 as int, coord.1 as int),
            self.spec_location().width <= 128,
            self.spec_location().height <= 8,
        ensures
            r == self.spec_backing()[(coord.1 - self.spec_location().top) * 128 + (coord.0
                - self.spec_location().left)],
    {
        let x = coord.0 - self.location.left;
        let y = coord.1 - self.location.top;
        self.backing[y * 128 + x]
    }
}

/// A mutable tile: like `Tile`, but its box can be rewritten and put back
/// into the surface with `restore_tiles`.
pub struct TileMut<CS> {
    location: Rect,
    backing: Vec<CS>,
}

impl<CS: Colorspace> TileMut<CS> {
    pub closed spec fn spec_backing(&self) -> Seq<CS> {
        self.backing@
    }

    pub closed spec fn spec_location(&self) -> Rect {
        self.location
    }

    pub fn location(&self) -> (r: Rect)
        ensures
            r == self.spec_location(),
    {
        self.location
    }

    /// The pixel at absolute coordinate `coord` inside this tile.
    pub fn index(&self, coord: (usize, usize)) -> (r: CS)
        requires
            self.spec_backing().len() == 1024,
            rect_contains(self.spec_location(), coord.0 as int, coord.1 as int),
            self.spec_location().width <= 128,
            self.spec_location().height <= 8,
        ensures
            r == self.spec_backing()[(coord.1 - self.spec_location().top) * 128 + (coord.0
                - self.spec_location().left)],
    {
        let x = coord.0 - self.location.left;
        let y = coord.1 - self.location.top;
        self.backing[y * 128 + x]
    }

    /// Overwrite the pixel at absolute coordinate `coord` inside this tile.
    pub fn put(&mut self, coord: (usize, usize), value: CS)
        requires
            old(self).spec_backing().len() == 1024,
            rect_contains(old(self).spec_location(), coord.0 as int, coord.1 as int),
            old(self).spec_location().width <= 128,
            old(self).spec_location().height <= 8,
        ensures
            final(self).spec_location() == old(self).spec_location(),
            final(self).spec_backing() == old(self).spec_backing().update(
                (coord.1 - old(self).spec_location().top) * 128 + (coord.0 - old(
                    self,
                ).spec_location().left),
                value,
            ),
    {
        let x = coord.0 - self.location.left;
        let y = coord.1 - self.location.top;
        self.backing.set(y * 128 + x, value);
    }

    /// Paint the whole box, padding included.
    pub fn fill(&mut self, value: CS)
        ensures
            final(self).spec_location() == old(self).spec_location(),
            final(self).spec_backing() == Seq::new(
                old(self).spec_backing().len(),
                |i: int| value,
            ),
    {
        let n = self.backing.len();
        let mut i: usize = 0;
        while i < n
            invariant
                i <= n,
                self.backing@.len() == n,
                self.location == old(self).spec_location(),
                forall|j: int| 0 <= j < i ==> self.backing@[j] == value,
            decreases n - i,
        {
            self.backing.set(i, value);
            i += 1;
        }
        proof {
            assert(self.backing@ =~= Seq::new(old(self).spec_backing().len(), |i: int| value));
        }
    }
}

/// The tiles of a surface, handed out one at a time.
pub struct Tiles<CS> {
    tiles: Vec<Tile<CS>>,
    next: usize,
}

impl<CS: Colorspace> Tiles<CS> {
    /// All tiles, in row-major tile order.
    pub closed spec fn spec_tiles(&self) -> Seq<Tile<CS>> {
        self.tiles@
    }

    pub closed spec fn spec_next(&self) -> int {
        self.next as int
    }

    /// How many tiles are left.
    pub fn remaining(&self) -> (r: usize)
        requires
            self.spec_next() <= self.spec_tiles().len(),
        ensures
            r == self.spec_tiles().len() - self.spec_next(),
    {
        self.tiles.len() - self.next
    }

    /// The next tile's rectangle, or `None` when the tiles are exhausted.
    pub fn next_location(&self) -> (r: Option<Rect>)
        ensures
            self.spec_next() < self.spec_tiles().len() ==> r == Some(
                self.spec_tiles()[self.spec_next()].spec_location(),
            ),
            self.spec_next() >= self.spec_tiles().len() ==> r is None,
    {
        if self.next < self.tiles.len() {
            Some(self.tiles[self.next].location())
        } else {
            None
        }
    }

    /// The pixel of the next tile at absolute coordinate `coord`, advancing
    /// no state.
    pub fn index_next(&self, coord: (usize, usize)) -> (r: CS)
        requires
            self.spec_next() < self.spec_tiles().len(),
            self.spec_tiles()[self.spec_next()].spec_backing().len() == 1024,
            rect_contains(
                self.spec_tiles()[self.spec_next()].spec_location(),
                coord.0 as int,
                coord.1 as int,
            ),
            self.spec_tiles()[self.spec_next()].spec_location().width <= 128,
            self.spec_tiles()[self.spec_next()].spec_location().height <= 8,
        ensures
            r == self.spec_tiles()[self.spec_next()].spec_backing()[(coord.1
                - self.spec_tiles()[self.spec_next()].spec_location().top) * 128 + (coord.0
                - self.spec_tiles()[self.spec_next()].spec_location().left)],
    {
        self.tiles[self.next].index(coord)
    }

    /// Step past the current tile.
    pub fn advance(&mut self)
        requires
            old(self).spec_next() < old(self).spec_tiles().len(),
        ensures
            final(self).spec_tiles() == old(self).spec_tiles(),
            final(self).spec_next() == old(self).spec_next() + 1,
    {
        let n = self.tiles.len();
        self.next = self.next + 1;
    }
}




} // verus!
