use vstd::prelude::*;

use rayon::iter::{IndexedParallelIterator, ParallelIterator};
use rayon::slice::ParallelSliceMut;
use rayon::ThreadPool;
use std::time::Duration;

use crate::clock::{clock_elapsed, clock_now};
use crate::grid::{cell_index, lemma_cell_index_injective};
use crate::pool::install;

verus! {

/// Sum of the first `k` terms of row `i` of `a` (an `? x m` matrix) times
/// column `j` of `b` (an `m x p` matrix), both stored row-major.
pub open spec fn dot(a: Seq<i32>, b: Seq<i32>, m: int, p: int, i: int, j: int, k: int) -> int
    decreases k,
{
    if k <= 0 {
        0
    } else {
        dot(a, b, m, p, i, j, k - 1) + a[cell_index(i, k - 1, m)] * b[cell_index(k - 1, j, p)]
    }
}

/// Term `t` of cell `(i, j)` of the product can be computed in `i32`: both
/// operands are inside their matrices, and neither the product nor the
/// partial sum up to this term leaves the `i32` range.
pub open spec fn term_computable(a: Seq<i32>, b: Seq<i32>, m: int, p: int, i: int, j: int, t: int) -> bool {
    &&& 0 <= cell_index(i, t, m) < a.len()
    &&& 0 <= cell_index(t, j, p) < b.len()
    &&& i32::MIN <= a[cell_index(i, t, m)] * b[cell_index(t, j, p)] <= i32::MAX
    &&& i32::MIN <= dot(a, b, m, p, i, j, t + 1) <= i32::MAX
}

/// Cell `(i, j)` of the product can be computed in `i32`, term by term.
pub open spec fn cell_computable(a: Seq<i32>, b: Seq<i32>, m: int, p: int, i: int, j: int) -> bool {
    forall|t: int| 0 <= t < m ==> #[trigger] term_computable(a, b, m, p, i, j, t)
}

/// Every cell `(i, j)` of a row-major output of `len` cells with `p` columns
/// can be computed.
pub open spec fn product_computable(a: Seq<i32>, b: Seq<i32>, m: int, p: int, len: int) -> bool {
    forall|i: int, j: int|
        0 <= i && 0 <= j < p && cell_index(i, j, p) < len ==> #[trigger] cell_computable(
            a,
            b,
            m,
            p,
            i,
            j,
        )
}

/// `c` holds, at every cell `(i, j)` of its `p` columns, the full dot
/// product of row `i` of `a` and column `j` of `b`.
pub open spec fn is_product(c: Seq<i32>, a: Seq<i32>, b: Seq<i32>, m: int, p: int) -> bool {
    forall|i: int, j: int|
        0 <= i && 0 <= j < p && cell_index(i, j, p) < c.len() ==> #[trigger] c[cell_index(i, j, p)]
            == dot(a, b, m, p, i, j, m)
}

/// `s` is the `n x n` identity matrix, row-major.
pub open spec fn is_identity(s: Seq<i32>, n: int) -> bool {
    &&& s.len() == n * n
    &&& forall|i: int, j: int|
        0 <= i < n && 0 <= j < n ==> #[trigger] s[cell_index(i, j, n)] == if i == j {
            1i32
        } else {
            0i32
        }
}

/// Fills row `i` of the product: cell `j` gets the sum over `k < m` of
/// `a[i * m + k] * b[k * p + j]`, added up from `k = 0`.
pub fn fill_product_row(i: usize, m: usize, p: usize, a: &[i32], b: &[i32], row: &mut [i32])
    requires
        old(row)@.len() <= p,
        forall|j: int| 0 <= j < old(row)@.len() ==> cell_computable(a@, b@, m as int, p as int, i as int, j),
    ensures
        final(row)@.len() == old(row)@.len(),
        forall|j: int| 0 <= j < final(row)@.len() ==> #[trigger] final(row)@[j] == dot(a@, b@, m as int, p as int, i as int, j, m as int),
{
    let len = row.len();
    let a_len = a.len();
    let b_len = b.len();
    let mut j: usize = 0;
    while j < len
        invariant
            0 <= j <= len,
            len == row@.len(),
            len <= p,
            a_len == a@.len(),
            b_len == b@.len(),
            forall|jj: int| 0 <= jj < len ==> cell_computable(a@, b@, m as int, p as int, i as int, jj),
            forall|jj: int| 0 <= jj < j ==> #[trigger] row@[jj] == dot(a@, b@, m as int, p as int, i as int, jj, m as int),
        decreases len - j,
    {
        let mut sum: i32 = 0;
        let mut k: usize = 0;
        while k < m
            invariant
                0 <= k <= m,
                j < len,
                a_len == a@.len(),
                b_len == b@.len(),
                cell_computable(a@, b@, m as int, p as int, i as int, j as int),
                sum == dot(a@, b@, m as int, p as int, i as int, j as int, k as int),
            decreases m - k,
        {
            assert(term_computable(a@, b@, m as int, p as int, i as int, j as int, k as int));
            let term = a[i * m + k] * b[k * p + j];
            sum = sum + term;
            k = k + 1;
        }
        row[j] = sum;
        j = j + 1;
    }
}

/// Calls rayon's `par_chunks_mut(p).enumerate().for_each(..)` on `c`, with
/// the verified `fill_product_row` as the closure. Rayon hands chunk `i`
/// (cells `i * p ..` up to `p` of them, the last one possibly shorter) to
/// the closure once, with its index; the contract claims that every cell of
/// `c` ends as `fill_product_row` sets it.
#[verifier::external_body]
fn par_fill_product_rows(m: usize, p: usize, a: &[i32], b: &[i32], c: &mut [i32])
    requires
        p > 0,
        product_computable(a@, b@, m as int, p as int, old(c)@.len() as int),
    ensures
        final(c)@.len() == old(c)@.len(),
        is_product(final(c)@, a@, b@, m as int, p as int),
{
    c.par_chunks_mut(p).enumerate().for_each(|(i, row)| fill_product_row(i, m, p, a, b, row));
}

/// Integer matrix product `c = a * b`, row by row in parallel: `a` has `m`
/// columns, `b` and `c` have `p` columns, all row-major.
pub fn mat_multiplier(m: usize, p: usize, a: &[i32], b: &[i32], c: &mut [i32])
    requires
        p > 0,
        product_computable(a@, b@, m as int, p as int, old(c)@.len() as int),
    ensures
        final(c)@.len() == old(c)@.len(),
        is_product(final(c)@, a@, b@, m as int, p as int),
{
    par_fill_product_rows(m, p, a, b, c);
}

/// A cell of an `n`-column grid that lies inside its `n * n` cells is in
/// one of its `n` rows, and so is every cell of that row.
proof fn lemma_square_cell(i: int, j: int, t: int, n: int)
    requires
        0 <= i,
        0 <= j < n,
        0 <= t < n,
        cell_index(i, j, n) < n * n,
    ensures
        i < n,
        0 <= cell_index(i, t, n) < n * n,
        0 <= cell_index(t, i, n) < n * n,
{
    if i >= n {
        assert(i * n >= n * n) by (nonlinear_arith)
            requires i >= n, n > 0;
    }
    assert(i * n + t < n * n) by (nonlinear_arith)
        requires i < n, 0 <= t < n;
    assert(t * n + i < n * n) by (nonlinear_arith)
        requires t < n, 0 <= i < n;
    assert(0 <= i * n) by (nonlinear_arith)
        requires 0 <= i, 0 < n;
    assert(0 <= t * n) by (nonlinear_arith)
        requires 0 <= t, 0 < n;
}

/// Every cell of an `n x n` grid lies inside its `n * n` positions.
proof fn lemma_cell_in_square(i: int, j: int, n: int)
    requires
        0 <= i < n,
        0 <= j < n,
    ensures
        0 <= cell_index(i, j, n) < n * n,
{
    assert(i * n + j < n * n) by (nonlinear_arith)
        requires i < n, 0 <= j < n;
    assert(0 <= i * n) by (nonlinear_arith)
        requires 0 <= i, 0 < n;
}

/// Row `i` of the identity times column `j` of the identity, over the first
/// `k` terms, is 1 exactly when `i == j` and that term is among them.
proof fn lemma_identity_dot(a: Seq<i32>, b: Seq<i32>, n: int, i: int, j: int, k: int)
    requires
        is_identity(a, n),
        is_identity(b, n),
        0 <= i < n,
        0 <= j < n,
        0 <= k <= n,
    ensures
        dot(a, b, n, n, i, j, k) == if i == j && i < k { 1int } else { 0int },
    decreases k,
{
    if k > 0 {
        lemma_identity_dot(a, b, n, i, j, k - 1);
        assert(a[cell_index(i, k - 1, n)] == if i == k - 1 { 1i32 } else { 0i32 });
        assert(b[cell_index(k - 1, j, n)] == if k - 1 == j { 1i32 } else { 0i32 });
    }
}

/// Cell `(i, j)` of the identity times itself can be computed in `i32`.
proof fn lemma_identity_cell_computable(a: Seq<i32>, b: Seq<i32>, n: int, i: int, j: int)
    requires
        n > 0,
        is_identity(a, n),
        is_identity(b, n),
        0 <= i,
        0 <= j < n,
        cell_index(i, j, n) < n * n,
    ensures
        cell_computable(a, b, n, n, i, j),
{
    assert forall|t: int| 0 <= t < n implies #[trigger] term_computable(a, b, n, n, i, j, t) by {
        lemma_square_cell(i, j, t, n);
        lemma_cell_in_square(t, j, n);
        lemma_identity_dot(a, b, n, i, j, t + 1);
        assert(a[cell_index(i, t, n)] == if i == t { 1i32 } else { 0i32 });
        assert(b[cell_index(t, j, n)] == if t == j { 1i32 } else { 0i32 });
    }
}

/// The identity matrix times itself can be computed in `i32`.
proof fn lemma_identity_computable(a: Seq<i32>, b: Seq<i32>, n: int)
    requires
        n > 0,
        is_identity(a, n),
        is_identity(b, n),
    ensures
        product_computable(a, b, n, n, n * n),
{
    assert forall|i: int, j: int|
        0 <= i && 0 <= j < n && cell_index(i, j, n) < n * n implies #[trigger] cell_computable(
        a,
        b,
        n,
        n,
        i,
        j,
    ) by {
        lemma_identity_cell_computable(a, b, n, i, j);
    }
}

/// The `n x n` identity matrix, row-major.
fn identity_matrix(n: usize) -> (r: Vec<i32>)
    requires
        n * n <= usize::MAX,
    ensures
        is_identity(r@, n as int),
{
    let mut m = vec![0i32; n * n];
    proof {
        assert forall|r: int, c: int| 0 <= r < n && 0 <= c < n implies #[trigger] m@[cell_index(r, c, n as int)]
            == 0i32 by {
            lemma_cell_in_square(r, c, n as int);
        }
    }
    let mut i: usize = 0;
    while i < n
        invariant
            0 <= i <= n,
            n * n <= usize::MAX,
            m@.len() == n * n,
            forall|r: int, c: int|
                0 <= r < n && 0 <= c < n ==> #[trigger] m@[cell_index(r, c, n as int)] == if r == c && r < i {
                    1i32
                } else {
                    0i32
                },
        decreases n - i,
    {
        proof {
            lemma_cell_in_square(i as int, i as int, n as int);
        }
        let ghost before = m@;
        m[i * n + i] = 1;
        proof {
            assert forall|r: int, c: int| 0 <= r < n && 0 <= c < n implies #[trigger] m@[cell_index(r, c, n as int)]
                == if r == c && r < i + 1 { 1i32 } else { 0i32 } by {
                lemma_cell_in_square(r, c, n as int);
                if cell_index(r, c, n as int) == cell_index(i as int, i as int, n as int) {
                    lemma_cell_index_injective(r, c, i as int, i as int, n as int);
                }
            }
        }
        i = i + 1;
    }
    m
}

/// One run of the matrix benchmark: multiplies the `n x n` identity by
/// itself on `pool` and reports how long the product took, with the product.
pub fn benchmark(pool: &ThreadPool, n: usize) -> (r: (Duration, Vec<i32>))
    requires
        n > 0,
        n * n <= usize::MAX,
    ensures
        is_identity(r.1@, n as int),
{
    let a = identity_matrix(n);
    let b = identity_matrix(n);
    let c = identity_matrix(n);
    proof {
        lemma_identity_computable(a@, b@, n as int);
    }
    let start = clock_now();
    let multiply = (
        move || -> (r: Vec<i32>)
            requires
                n > 0,
                product_computable(a@, b@, n as int, n as int, c@.len() as int),
            ensures
                r@.len() == c@.len(),
                is_product(r@, a@, b@, n as int, n as int),
            {
                let mut c = c;
                mat_multiplier(n, n, a.as_slice(), b.as_slice(), c.as_mut_slice());
                c
            }
    );
    let product = install(pool, multiply);
    let elapsed = clock_elapsed(&start);
    proof {
        assert forall|i: int, j: int| 0 <= i < n && 0 <= j < n implies #[trigger] product@[cell_index(i, j, n as int)]
            == if i == j { 1i32 } else { 0i32 } by {
            lemma_cell_in_square(i, j, n as int);
            lemma_identity_dot(a@, b@, n as int, i, j, n as int);
        }
    }
    (elapsed, product)
}

} // verus!
