use vstd::prelude::*;

use rayon::iter::{IntoParallelRefIterator, ParallelIterator};
use std::sync::Mutex;

verus! {

/// How many items of `s` equal `v`.
pub open spec fn count_of(s: Seq<usize>, v: int) -> nat
    decreases s.len(),
{
    if s.len() == 0 {
        0
    } else {
        count_of(s.drop_last(), v) + if s.last() == v { 1nat } else { 0nat }
    }
}

/// The histogram of `s` over `bins` bins: bin `b` holds how many items equal `b`.
pub open spec fn histogram_of(s: Seq<usize>, bins: nat) -> Seq<usize> {
    Seq::new(bins, |b: int| count_of(s, b) as usize)
}

/// Every item of `s` names one of the `bins` bins.
pub open spec fn all_below(s: Seq<usize>, bins: int) -> bool {
    forall|i: int| 0 <= i < s.len() ==> s[i] < bins
}

/// Bin-wise sum of two histograms of the same width.
pub open spec fn merged(h1: Seq<usize>, h2: Seq<usize>) -> Seq<usize> {
    Seq::new(h1.len(), |b: int| (h1[b] + h2[b]) as usize)
}

/// A histogram with every bin empty.
pub open spec fn empty_counts(bins: nat) -> Seq<usize> {
    Seq::new(bins, |b: int| 0usize)
}

/// Sum of all bins.
pub open spec fn total(h: Seq<usize>) -> int
    decreases h.len(),
{
    if h.len() == 0 {
        0
    } else {
        total(h.drop_last()) + h.last()
    }
}

/// Appending an item adds one to its own count and leaves the others.
pub proof fn lemma_count_push(s: Seq<usize>, x: usize, v: int)
    ensures
        count_of(s.push(x), v) == count_of(s, v) + if x == v { 1nat } else { 0nat },
{
    assert(s.push(x).drop_last() =~= s);
}

/// An item count never exceeds the length of the sequence.
pub proof fn lemma_count_bounded(s: Seq<usize>, v: int)
    ensures
        count_of(s, v) <= s.len(),
    decreases s.len(),
{
    if s.len() > 0 {
        lemma_count_bounded(s.drop_last(), v);
    }
}

/// Counting is additive over concatenation.
pub proof fn lemma_count_concat(s1: Seq<usize>, s2: Seq<usize>, v: int)
    ensures
        count_of(s1 + s2, v) == count_of(s1, v) + count_of(s2, v),
    decreases s2.len(),
{
    if s2.len() == 0 {
        assert(s1 + s2 =~= s1);
    } else {
        lemma_count_concat(s1, s2.drop_last(), v);
        assert((s1 + s2).drop_last() =~= s1 + s2.drop_last());
    }
}

/// The histogram of the empty sequence is all zeros.
pub proof fn lemma_histogram_empty(bins: nat)
    ensures
        histogram_of(Seq::empty(), bins) == empty_counts(bins),
{
    assert(histogram_of(Seq::empty(), bins) =~= empty_counts(bins));
}

/// Appending an item bumps exactly its bin.
pub proof fn lemma_histogram_push(s: Seq<usize>, x: usize, bins: nat)
    requires
        x < bins,
        s.len() + 1 <= usize::MAX,
    ensures
        histogram_of(s.push(x), bins) == histogram_of(s, bins).update(
            x as int,
            (histogram_of(s, bins)[x as int] + 1) as usize,
        ),
{
    assert forall|b: int| 0 <= b < bins implies #[trigger] histogram_of(s.push(x), bins)[b]
        == histogram_of(s, bins).update(x as int, (histogram_of(s, bins)[x as int] + 1) as usize)[b] by {
        lemma_count_push(s, x, b);
        lemma_count_bounded(s, b);
    }
    assert(histogram_of(s.push(x), bins) =~= histogram_of(s, bins).update(
        x as int,
        (histogram_of(s, bins)[x as int] + 1) as usize,
    ));
}

/// Partition law behind every parallel histogram: the histogram of a
/// concatenation is the bin-wise sum of the histograms of its parts.
pub proof fn lemma_histogram_concat(s1: Seq<usize>, s2: Seq<usize>, bins: nat)
    requires
        s1.len() + s2.len() <= usize::MAX,
    ensures
        histogram_of(s1 + s2, bins) == merged(histogram_of(s1, bins), histogram_of(s2, bins)),
{
    assert forall|b: int| 0 <= b < bins implies #[trigger] histogram_of(s1 + s2, bins)[b]
        == merged(histogram_of(s1, bins), histogram_of(s2, bins))[b] by {
        lemma_count_concat(s1, s2, b);
        lemma_count_bounded(s1, b);
        lemma_count_bounded(s2, b);
    }
    assert(histogram_of(s1 + s2, bins) =~= merged(histogram_of(s1, bins), histogram_of(s2, bins)));
}

/// The empty histogram is a neutral element of the bin-wise sum.
pub proof fn lemma_merged_identity(h: Seq<usize>)
    ensures
        merged(empty_counts(h.len()), h) == h,
        merged(h, empty_counts(h.len())) == h,
{
    assert(merged(empty_counts(h.len()), h) =~= h);
    assert(merged(h, empty_counts(h.len())) =~= h);
}

/// The bin-wise sum is commutative and, where no bin overflows, associative:
/// so a parallel reduction may combine partial histograms in any grouping.
pub proof fn lemma_merged_comm_assoc(h1: Seq<usize>, h2: Seq<usize>, h3: Seq<usize>)
    requires
        h1.len() == h2.len(),
        h2.len() == h3.len(),
        forall|b: int| 0 <= b < h1.len() ==> h1[b] + h2[b] + h3[b] <= usize::MAX,
    ensures
        merged(h1, h2) == merged(h2, h1),
        merged(merged(h1, h2), h3) == merged(h1, merged(h2, h3)),
{
    assert(merged(h1, h2) =~= merged(h2, h1));
    assert(merged(merged(h1, h2), h3) =~= merged(h1, merged(h2, h3)));
}

/// Total law: when every item names a bin, the bins add up to the number
/// of items, so no item is lost or counted twice.
pub proof fn lemma_histogram_total(s: Seq<usize>, bins: nat)
    requires
        all_below(s, bins as int),
        s.len() <= usize::MAX,
    ensures
        total(histogram_of(s, bins)) == s.len(),
    decreases s.len(),
{
    if s.len() == 0 {
        assert(s =~= Seq::<usize>::empty());
        lemma_histogram_empty(bins);
        lemma_total_empty(bins);
    } else {
        let t = s.drop_last();
        let x = s.last();
        assert(all_below(t, bins as int)) by {
            assert forall|i: int| 0 <= i < t.len() implies t[i] < bins by {
                assert(t[i] == s[i]);
            }
        }
        assert(x < bins) by {
            assert(s[s.len() - 1] == x);
        }
        lemma_histogram_total(t, bins);
        assert(t.push(x) =~= s);
        lemma_histogram_push(t, x, bins);
        lemma_count_bounded(t, x as int);
        lemma_total_update(histogram_of(t, bins), x as int, (histogram_of(t, bins)[x as int] + 1) as usize);
        assert(histogram_of(t, bins)[x as int] == count_of(t, x as int));
    }
}

proof fn lemma_total_empty(bins: nat)
    ensures
        total(empty_counts(bins)) == 0,
    decreases bins,
{
    if bins > 0 {
        assert(empty_counts(bins).drop_last() =~= empty_counts((bins - 1) as nat));
        lemma_total_empty((bins - 1) as nat);
    }
}

proof fn lemma_total_update(h: Seq<usize>, i: int, v: usize)
    requires
        0 <= i < h.len(),
    ensures
        total(h.update(i, v)) == total(h) - h[i] + v,
    decreases h.len(),
{
    if i == h.len() - 1 {
        assert(h.update(i, v).drop_last() =~= h.drop_last());
    } else {
        lemma_total_update(h.drop_last(), i, v);
        assert(h.update(i, v).drop_last() =~= h.drop_last().update(i, v));
    }
}

/// A histogram of `bins` empty bins.
pub fn zero_counts(bins: usize) -> (r: Vec<usize>)
    ensures
        r@ == empty_counts(bins as nat),
{
    let r = vec![0usize; bins];
    assert(r@ =~= empty_counts(bins as nat));
    r
}

/// Counts one more occurrence of `x`.
pub fn add_one(counts: &mut Vec<usize>, x: usize)
    requires
        x < old(counts).len(),
        old(counts)[x as int] < usize::MAX,
    ensures
        final(counts)@ == old(counts)@.update(x as int, (old(counts)[x as int] + 1) as usize),
{
    counts[x] = counts[x] + 1;
}

/// The per-worker step of the parallel fold: counts one more `x` in `local`.
pub fn add_item(local: Vec<usize>, x: usize) -> (r: Vec<usize>)
    requires
        x < local.len(),
        local[x as int] < usize::MAX,
    ensures
        r@ == local@.update(x as int, (local[x as int] + 1) as usize),
{
    let mut local = local;
    add_one(&mut local, x);
    local
}

/// The combining step of the parallel reduction: adds `b` into `a`, bin by
/// bin, over the first `bins` bins.
pub fn merge_counts(a: Vec<usize>, b: Vec<usize>, bins: usize) -> (r: Vec<usize>)
    requires
        a.len() == bins,
        b.len() == bins,
        forall|i: int| 0 <= i < bins ==> a[i] + b[i] <= usize::MAX,
    ensures
        r@ == merged(a@, b@),
{
    let mut a = a;
    let ghost a0 = a@;
    let mut i: usize = 0;
    while i < bins
        invariant
            0 <= i <= bins,
            b.len() == bins,
            a0.len() == bins,
            a@.len() == bins,
            forall|j: int| 0 <= j < bins ==> a0[j] + b[j] <= usize::MAX,
            forall|j: int| 0 <= j < i ==> a@[j] == a0[j] + b[j],
            forall|j: int| i <= j < bins ==> a@[j] == a0[j],
        decreases bins - i,
    {
        assert(a@[i as int] == a0[i as int]);
        a[i] = a[i] + b[i];
        i = i + 1;
    }
    assert(a@ =~= merged(a0, b@));
    a
}

/// Sequential histogram: counts every item of `data` into its bin.
pub fn histogram_seq(data: &[usize], bins: usize) -> (r: Vec<usize>)
    requires
        all_below(data@, bins as int),
    ensures
        r@ == histogram_of(data@, bins as nat),
{
    let mut hist = zero_counts(bins);
    proof {
        assert(data@.take(0) =~= Seq::<usize>::empty());
        lemma_histogram_empty(bins as nat);
    }
    let mut i: usize = 0;
    while i < data.len()
        invariant
            0 <= i <= data.len(),
            all_below(data@, bins as int),
            hist@ == histogram_of(data@.take(i as int), bins as nat),
        decreases data.len() - i,
    {
        let x = data[i];
        proof {
            assert(data@.take(i + 1) =~= data@.take(i as int).push(x));
            lemma_histogram_push(data@.take(i as int), x, bins as nat);
            lemma_count_bounded(data@.take(i as int), x as int);
        }
        add_one(&mut hist, x);
        i = i + 1;
    }
    assert(data@.take(data.len() as int) =~= data@);
    hist
}

/// Parallel histogram with per-worker partial counts: calls rayon's
/// `par_iter().fold(..).reduce(..)`, whose closures only call the verified
/// `zero_counts`, `add_item` and `merge_counts`. Rayon folds contiguous
/// groups of `data` from the identity and reduces the partial results with
/// the combining closure; the contract claims the outcome is the histogram
/// of `data`, which is what such a fold gives given the laws proved here
/// (`lemma_histogram_push`, `lemma_histogram_concat`,
/// `lemma_merged_identity`, `lemma_merged_comm_assoc`).
#[verifier::external_body]
pub(crate) fn histogram_rayon_local(data: &[usize], bins: usize) -> (r: Vec<usize>)
    requires
        all_below(data@, bins as int),
    ensures
        r@ == histogram_of(data@, bins as nat),
{
    data.par_iter()
        .fold(|| zero_counts(bins), |local, &x| add_item(local, x))
        .reduce(|| zero_counts(bins), |a, b| merge_counts(a, b, bins))
}

/// Parallel histogram with one shared table behind a lock: puts the empty
/// table `init` in a `std::sync::Mutex`, calls rayon's
/// `par_iter().for_each(..)` on `data`, where each item locks the mutex and
/// applies the verified `add_one`, and `Mutex::into_inner` then hands the
/// table back. Rayon visits every item exactly once and the lock makes the
/// increments one at a time, so the contract claims the table ends as the
/// histogram of `data`.
#[verifier::external_body]
pub(crate) fn histogram_mutex(data: &[usize], init: Vec<usize>, bins: usize) -> (r: Vec<usize>)
    requires
        init@ == empty_counts(bins as nat),
        all_below(data@, bins as int),
    ensures
        r@ == histogram_of(data@, bins as nat),
{
    let hist = Mutex::new(init);
    data.par_iter().for_each(|&x| add_one(&mut hist.lock().expect("mutex poisoned"), x));
    hist.into_inner().expect("mutex poisoned")
}

/// The benchmark's histogram input: item `i` is `(i * 17 + 13) % bins`.
pub fn generate_histogram_data(n: usize, bins: usize) -> (r: Vec<usize>)
    requires
        n == 0 || bins > 0,
        n == 0 || (n - 1) * 17 + 13 <= usize::MAX,
    ensures
        r@.len() == n,
        forall|i: int| 0 <= i < n ==> #[trigger] r@[i] == (i * 17 + 13) % (bins as int),
        all_below(r@, bins as int),
{
    let mut data: Vec<usize> = Vec::with_capacity(n);
    let mut i: usize = 0;
    while i < n
        invariant
            0 <= i <= n,
            n == 0 || bins > 0,
            n == 0 || (n - 1) * 17 + 13 <= usize::MAX,
            data@.len() == i,
            forall|j: int| 0 <= j < i ==> #[trigger] data@[j] == (j * 17 + 13) % (bins as int),
        decreases n - i,
    {
        data.push((i * 17 + 13) % bins);
        i = i + 1;
    }
    data
}

} // verus!
