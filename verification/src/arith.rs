//! Shared arithmetic lemmas for coordinate and rescaling proofs.

use vstd::prelude::*;

verus! {

/// A row-major offset computed from in-bounds coordinates stays inside the
/// `w * h` grid.
pub proof fn lemma_rowmajor_in_grid(x: int, y: int, w: int, h: int)
    requires
        0 <= x < w,
        0 <= y < h,
    ensures
        0 <= y * w + x < w * h,
{
    assert(y * w + x < w * h) by (nonlinear_arith)
        requires
            0 <= x < w,
            0 <= y < h,
    ;
    assert(0 <= y * w) by (nonlinear_arith)
        requires
            0 <= y,
            0 <= w,
    ;
}

/// Row-major offsets of distinct in-bounds coordinates differ.
pub proof fn lemma_rowmajor_injective(x: int, y: int, x2: int, y2: int, w: int, h: int)
    requires
        0 <= x < w,
        0 <= y < h,
        0 <= x2 < w,
        0 <= y2 < h,
        x != x2 || y != y2,
    ensures
        y * w + x != y2 * w + x2,
{
    assert(y * w + x != y2 * w + x2) by (nonlinear_arith)
        requires
            0 <= x < w,
            0 <= y < h,
            0 <= x2 < w,
            0 <= y2 < h,
            x != x2 || y != y2,
    ;
}

/// Elements of two distinct fixed-stride groups never overlap.
pub proof fn lemma_strided_distinct(stride: int, o1: int, o2: int, count: int)
    requires
        0 < stride,
        0 <= o1 < count,
        0 <= o2 < count,
        o1 != o2,
    ensures
        forall|a: int, b: int|
            0 <= a < stride && 0 <= b < stride ==> #[trigger] (stride * o1 + a) != #[trigger] (
            stride * o2 + b),
{
    assert forall|a: int, b: int|
        0 <= a < stride && 0 <= b < stride implies #[trigger] (stride * o1 + a) != #[trigger] (
    stride * o2 + b) by {
        lemma_rowmajor_injective(a, o1, b, o2, stride, count);
        assert(o1 * stride + a == stride * o1 + a) by (nonlinear_arith);
        assert(o2 * stride + b == stride * o2 + b) by (nonlinear_arith);
    }
}

/// For even dimensions the product splits into exact quarters and halves.
pub proof fn lemma_even_halves(w: int, h: int)
    requires
        w % 2 == 0,
        h % 2 == 0,
        0 <= w,
        0 <= h,
    ensures
        (w * h) % 4 == 0,
        (w * h) % 2 == 0,
        (w / 2) * (h / 2) == (w * h) / 4,
{
    assert((w * h) % 4 == 0 && (w * h) % 2 == 0 && (w / 2) * (h / 2) == (w * h) / 4)
        by (nonlinear_arith)
        requires
            w % 2 == 0,
            h % 2 == 0,
            0 <= w,
            0 <= h,
    ;
}

/// Exact arithmetic on a multiple of four.
pub proof fn lemma_quarter_sum(n: int)
    requires
        n % 4 == 0,
        0 <= n,
    ensures
        n + n / 4 + n / 4 == 3 * n / 2,
        n / 4 + n / 4 == n / 2,
        n / 2 + n / 2 == n,
{
    assert(n + n / 4 + n / 4 == 3 * n / 2 && n / 4 + n / 4 == n / 2 && n / 2 + n / 2 == n)
        by (nonlinear_arith)
        requires
            n % 4 == 0,
            0 <= n,
    ;
}

/// A product with one even factor is even, and its half splits exactly.
pub proof fn lemma_even_product(w: int, h: int)
    requires
        w % 2 == 0,
        0 <= w,
        0 <= h,
    ensures
        (w * h) % 2 == 0,
        (w * h) / 2 + (w * h) / 2 == w * h,
        0 < w * h ==> (w * h - 1) / 2 == (w * h) / 2 - 1,
{
    let m = w / 2;
    lemma_div_mod_recompose(w, 2);
    assert(w * h == (m * h) * 2 && 0 <= m * h) by (nonlinear_arith)
        requires
            w == m * 2,
            0 <= m,
            0 <= h,
    ;
    lemma_div_mod_unique(w * h, 2, m * h, 0);
    if 0 < w * h {
        lemma_div_mod_unique(w * h - 1, 2, m * h - 1, 1);
    }
}

/// Rounding an in-bounds coordinate down to its even partner stays at least
/// two short of an even bound.
pub proof fn lemma_pair_base(x: int, w: int)
    requires
        0 <= x < w,
        w % 2 == 0,
    ensures
        0 <= 2 * (x / 2) <= w - 2,
        2 * (x / 2) <= x,
{
    assert(0 <= 2 * (x / 2) <= w - 2 && 2 * (x / 2) <= x) by (nonlinear_arith)
        requires
            0 <= x < w,
            w % 2 == 0,
    ;
}

/// The four elements of a 4:2:2 macropixel stay inside a `2 w h` buffer.
pub proof fn lemma_macropixel_bound(x: int, y: int, w: int, h: int)
    requires
        0 <= x < w,
        0 <= y < h,
        w % 2 == 0,
    ensures
        0 <= 2 * (y * w + 2 * (x / 2)),
        2 * (y * w + 2 * (x / 2)) + 3 < 2 * (w * h),
{
    assert(0 <= 2 * (y * w + 2 * (x / 2)) && 2 * (y * w + 2 * (x / 2)) + 3 < 2 * (w * h))
        by (nonlinear_arith)
        requires
            0 <= x < w,
            0 <= y < h,
            w % 2 == 0,
    ;
}

/// Decomposing an in-bounds coordinate of a box-aligned `w x h` grid into
/// 128 x 8 boxes: the box coordinates stay inside the box grid, the in-box
/// offset inside one box, and the combined index inside the buffer.
pub proof fn lemma_box_coords(w: int, h: int, x: int, y: int)
    requires
        0 <= x < w,
        0 <= y < h,
        w % 128 == 0,
        h % 8 == 0,
    ensures
        0 <= (y / 8) * (w / 128) + x / 128,
        x / 128 < w / 128,
        y / 8 < h / 8,
        0 <= (y % 8) * 128 + x % 128 < 1024,
        ((y / 8) * (w / 128) + x / 128) * 1024 + (y % 8) * 128 + x % 128 < w * h,
{
    let a = w / 128;
    let b = h / 8;
    lemma_div_mod_recompose(w, 128);
    lemma_div_mod_recompose(h, 8);
    lemma_div_mod_recompose(x, 128);
    lemma_div_mod_recompose(y, 8);
    lemma_div_nonneg(x, 128);
    lemma_div_nonneg(y, 8);
    lemma_div_strict_bound(x, a, 128);
    lemma_div_strict_bound(y, b, 8);
    let tx = x / 128;
    let ty = y / 8;
    lemma_rowmajor_in_grid(tx, ty, a, b);
    let q = ty * a + tx;
    let inner = (y % 8) * 128 + x % 128;
    assert(q * 1024 + inner < (a * b) * 1024) by (nonlinear_arith)
        requires
            0 <= q,
            q < a * b,
            0 <= inner < 1024,
    ;
    assert(w * h == (a * b) * 1024) by (nonlinear_arith)
        requires
            w == a * 128,
            h == b * 8,
    ;
}

/// Rounding up to a multiple of `t` moves by less than `t` and lands on a
/// multiple.
pub proof fn lemma_pad_up(n: int, t: int)
    requires
        0 <= n,
        0 < t,
    ensures
        n % t != 0 ==> ((n / t + 1) * t) % t == 0,
        n % t != 0 ==> n < (n / t + 1) * t <= n + t - 1,
{
    assert((n % t != 0 ==> ((n / t + 1) * t) % t == 0) && (n % t != 0 ==> n < (n / t + 1) * t <= n
        + t - 1)) by (nonlinear_arith)
        requires
            0 <= n,
            0 < t,
    ;
}

/// Multiplication preserves ordering of non-negative factors.
pub proof fn lemma_mul_le(a: int, b: int, c: int, d: int)
    requires
        0 <= a <= b,
        0 <= c <= d,
    ensures
        a * c <= b * d,
{
    assert(a * c <= b * d) by (nonlinear_arith)
        requires
            0 <= a <= b,
            0 <= c <= d,
    ;
}

/// Division of a strictly smaller product: if `n < c * d` then `n / d < c`.
pub proof fn lemma_div_strict_bound(n: int, c: int, d: int)
    requires
        0 <= n,
        0 < d,
        n < c * d,
    ensures
        n / d < c,
{
    assert(n / d < c) by (nonlinear_arith)
        requires
            0 <= n,
            0 < d,
            n < c * d,
    ;
}

/// Division of non-negative numbers is non-negative.
pub proof fn lemma_div_nonneg(n: int, d: int)
    requires
        0 <= n,
        0 < d,
    ensures
        0 <= n / d,
{
    assert(0 <= n / d) by (nonlinear_arith)
        requires
            0 <= n,
            0 < d,
    ;
}

/// Division is monotone in the dividend.
pub proof fn lemma_div_le(a: int, b: int, d: int)
    requires
        0 <= a <= b,
        0 < d,
    ensures
        a / d <= b / d,
{
    assert(a / d <= b / d) by (nonlinear_arith)
        requires
            0 <= a <= b,
            0 < d,
    ;
}

/// Recompose a number from its quotient and remainder by `d`.
pub proof fn lemma_div_mod_recompose(n: int, d: int)
    requires
        0 <= n,
        0 < d,
    ensures
        n == (n / d) * d + n % d,
        0 <= n % d < d,
{
    assert(n == (n / d) * d + n % d && 0 <= n % d < d) by (nonlinear_arith)
        requires
            0 <= n,
            0 < d,
    ;
}

/// A quotient-remainder pair determines the quotient and remainder.
pub proof fn lemma_div_mod_unique(n: int, d: int, q: int, r: int)
    requires
        0 < d,
        0 <= r < d,
        n == q * d + r,
        0 <= q,
    ensures
        n / d == q,
        n % d == r,
{
    assert(n / d == q && n % d == r) by (nonlinear_arith)
        requires
            0 < d,
            0 <= r < d,
            n == q * d + r,
            0 <= q,
    ;
}

} // verus!
