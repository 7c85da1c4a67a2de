//! Pictures stored row after row: where a pixel lies in the buffer.

use vstd::prelude::*;

verus! {

/// In a picture of `w` by `h` pixels stored row after row, the pixel at
/// column `x` of row `y` lies inside the buffer, in the stretch of its own
/// row.
pub proof fn lemma_grid_index(x: int, y: int, w: int, h: int)
    requires
        0 <= x < w,
        0 <= y < h,
    ensures
        0 <= y * w <= y * w + x < w * h,
        y * w + x < (y + 1) * w,
        (y + 1) * w <= w * h,
{
    assert(y * w >= 0) by (nonlinear_arith)
        requires
            y >= 0,
            w >= 0,
    ;
    assert((y + 1) * w == y * w + w) by (nonlinear_arith);
    assert((y + 1) * w <= w * h) by (nonlinear_arith)
        requires
            y + 1 <= h,
            w >= 0,
    ;
}

} // verus!
