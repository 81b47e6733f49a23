//! Row-major grids.

use vstd::prelude::*;

verus! {

/// The row-major index of a cell on a grid lies within the grid.
pub proof fn lemma_cell_index(w: int, h: int, x: int, y: int)
    requires
        0 <= x < w,
        0 <= y < h,
    ensures
        0 <= y * w,
        y * w + x < w * h,
{
    assert(y * w >= 0) by (nonlinear_arith)
        requires y >= 0, w >= 0;
    assert((y + 1) * w <= h * w) by (nonlinear_arith)
        requires y + 1 <= h, w >= 0;
    assert((y + 1) * w == y * w + w) by (nonlinear_arith);
}

} // verus!
