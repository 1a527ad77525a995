//! Small arithmetic facts shared by the pixel-layout proofs.

use vstd::prelude::*;

verus! {

/// Multiplication keeps order: `a <= b` gives `a * c <= b * c`.
pub proof fn mul_le(a: int, b: int, c: int)
    requires
        a <= b,
        0 <= c,
    ensures
        a * c <= b * c,
{
    assert(a * c <= b * c) by (nonlinear_arith)
        requires a <= b, 0 <= c;
}

/// Position facts for the four bytes of the pixel at column `x` of row
/// `y` in a tightly packed four-byte-per-pixel image of width `w`: their
/// indices decompose back into that pixel and channel.
pub proof fn lemma_pixel_index(w: int, y: int, x: int)
    requires
        0 <= x < w,
        0 <= y,
    ensures
        ((y * w + x) * 4) / 4 == y * w + x,
        ((y * w + x) * 4) % 4 == 0,
        ((y * w + x) * 4 + 1) / 4 == y * w + x,
        ((y * w + x) * 4 + 1) % 4 == 1,
        ((y * w + x) * 4 + 2) / 4 == y * w + x,
        ((y * w + x) * 4 + 2) % 4 == 2,
        ((y * w + x) * 4 + 3) / 4 == y * w + x,
        ((y * w + x) * 4 + 3) % 4 == 3,
        (y * w + x) / w == y,
        (y * w + x) % w == x,
{
    let p = y * w + x;
    assert(p * 4 / 4 == p && p * 4 % 4 == 0 && (p * 4 + 1) / 4 == p && (p * 4 + 1) % 4 == 1
        && (p * 4 + 2) / 4 == p && (p * 4 + 2) % 4 == 2 && (p * 4 + 3) / 4 == p
        && (p * 4 + 3) % 4 == 3) by (nonlinear_arith)
        requires p >= 0;
    assert(p / w == y && p % w == x) by (nonlinear_arith)
        requires 0 <= x < w, 0 <= y, p == y * w + x;
}

} // verus!
