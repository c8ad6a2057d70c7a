use vstd::prelude::*;

verus! {

/// Row-major position of cell `(i, j)` in a grid with `n` columns.
pub open spec fn cell_index(i: int, j: int, n: int) -> int {
    i * n + j
}

/// Position of cell `(i, j)` in a row-major grid with `n` columns.
pub fn index(i: usize, j: usize, n: usize) -> (r: usize)
    requires
        i * n + j <= usize::MAX,
    ensures
        r == cell_index(i as int, j as int, n as int),
{
    i * n + j
}

/// Row-major layout puts distinct cells of a grid with `n` columns at
/// distinct positions.
pub proof fn lemma_cell_index_injective(i1: int, j1: int, i2: int, j2: int, n: int)
    requires
        0 <= j1 < n,
        0 <= j2 < n,
        0 <= i1,
        0 <= i2,
        cell_index(i1, j1, n) == cell_index(i2, j2, n),
    ensures
        i1 == i2,
        j1 == j2,
{
    if i1 < i2 {
        assert(i1 * n + n <= i2 * n) by (nonlinear_arith)
            requires i1 < i2, n > 0;
    } else if i2 < i1 {
        assert(i2 * n + n <= i1 * n) by (nonlinear_arith)
            requires i2 < i1, n > 0;
    }
}

} // verus!
