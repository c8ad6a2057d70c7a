use vstd::prelude::*;

use rayon::iter::{IntoParallelRefIterator, ParallelIterator};

verus! {

/// `m` is the minimum of `s`: it occurs in `s` and no item is smaller.
pub open spec fn is_min_of(s: Seq<i64>, m: i64) -> bool {
    &&& exists|k: int| 0 <= k < s.len() && s[k] == m
    &&& forall|k: int| 0 <= k < s.len() ==> m <= s[k]
}

/// The value that the benchmark's array generator puts at position `i`.
pub open spec fn array_value(i: int) -> int {
    (i * 48271) % 1_000_003 - 500_000
}

/// A sequence has at most one minimum: every way of computing it (the
/// sequential scan or the parallel reduction) gives the same value.
pub proof fn lemma_min_unique(s: Seq<i64>, m1: i64, m2: i64)
    requires
        is_min_of(s, m1),
        is_min_of(s, m2),
    ensures
        m1 == m2,
{
    let k1 = choose|k: int| 0 <= k < s.len() && s[k] == m1;
    let k2 = choose|k: int| 0 <= k < s.len() && s[k] == m2;
    assert(m1 <= s[k2]);
    assert(m2 <= s[k1]);
}

/// The benchmark's array input: item `i` is `(i * 48271) % 1000003 - 500000`.
pub fn generate_array_data(n: usize) -> (r: Vec<i64>)
    requires
        n == 0 || (n - 1) * 48271 <= i64::MAX,
    ensures
        r@.len() == n,
        forall|i: int| 0 <= i < n ==> #[trigger] r@[i] == array_value(i),
{
    let mut data: Vec<i64> = Vec::with_capacity(n);
    let mut i: usize = 0;
    while i < n
        invariant
            0 <= i <= n,
            n == 0 || (n - 1) * 48271 <= i64::MAX,
            data@.len() == i,
            forall|j: int| 0 <= j < i ==> #[trigger] data@[j] == array_value(j),
        decreases n - i,
    {
        let value = ((i as i64 * 48271) % 1_000_003) - 500_000;
        data.push(value);
        i = i + 1;
    }
    data
}

/// Sequential minimum: scans `data` once, keeping the smallest item seen.
pub fn array_min_seq(data: &[i64]) -> (r: i64)
    requires
        data.len() > 0,
    ensures
        is_min_of(data@, r),
{
    let mut min_val = data[0];
    let mut i: usize = 1;
    while i < data.len()
        invariant
            1 <= i <= data.len(),
            exists|k: int| 0 <= k < i && data@[k] == min_val,
            forall|k: int| 0 <= k < i ==> min_val <= data@[k],
        decreases data.len() - i,
    {
        let x = data[i];
        if x < min_val {
            min_val = x;
        }
        i = i + 1;
    }
    min_val
}

/// Parallel minimum: calls rayon's `par_iter().min()`, which returns the
/// least item (`None` only for an empty slice, excluded here). The contract
/// claims the result is the minimum of `data`.
#[verifier::external_body]
pub(crate) fn array_min_rayon(data: &[i64]) -> (r: i64)
    requires
        data.len() > 0,
    ensures
        is_min_of(data@, r),
{
    *data.par_iter().min().expect("data must be non-empty")
}

} // verus!
