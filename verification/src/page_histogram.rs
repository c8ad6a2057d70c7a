use vstd::prelude::*;

use rayon::iter::{IntoParallelRefIterator, ParallelIterator};
use rayon::slice::ParallelSlice;
use std::sync::Mutex;

use crate::histogram::{
    add_one, all_below, count_of, empty_counts, histogram_of, lemma_count_bounded, lemma_count_concat,
    lemma_histogram_empty, lemma_histogram_push, zero_counts,
};
use crate::pool::{build_thread_pool, install, is_pool_error_text};
use rayon::ThreadPool;

verus! {

/// The bytes of a page read as bin numbers.
pub open spec fn widen(s: Seq<u8>) -> Seq<usize> {
    s.map_values(|x: u8| x as usize)
}

/// Number of chunks of at most `cs` items that cover `len` items.
pub open spec fn chunk_count(len: int, cs: int) -> int {
    (len + cs - 1) / cs
}

/// End of the `k` first chunks of size `cs` in a sequence of `len` items.
pub open spec fn chunks_end(k: int, cs: int, len: int) -> int {
    if k * cs <= len {
        k * cs
    } else {
        len
    }
}

/// Chunk number `k` of `s` when `s` is cut into chunks of `cs` items (the
/// last one may be shorter).
pub open spec fn chunk_of(s: Seq<u8>, cs: int, k: int) -> Seq<u8> {
    s.subrange(k * cs, chunks_end(k + 1, cs, s.len() as int))
}

/// Chunks before the last start inside the sequence, and the chunks
/// together reach its end.
pub proof fn lemma_chunk_count(len: int, cs: int, k: int)
    requires
        len >= 0,
        cs > 0,
        0 <= k < chunk_count(len, cs),
    ensures
        k * cs < len,
        (k + 1) * cs <= len || k + 1 == chunk_count(len, cs),
        chunk_count(len, cs) * cs >= len,
{
    let q = chunk_count(len, cs);
    vstd::arithmetic::div_mod::lemma_fundamental_div_mod(len + cs - 1, cs);
    let r = (len + cs - 1) % cs;
    assert(len + cs - 1 == cs * q + r);
    assert(0 <= r < cs);
    assert(k * cs <= (q - 1) * cs) by (nonlinear_arith)
        requires k <= q - 1, cs > 0;
    assert((q - 1) * cs == q * cs - cs) by (nonlinear_arith);
    assert(cs * q == q * cs) by (nonlinear_arith);
    if (k + 1) * cs > len {
        assert(k + 1 >= q) by (nonlinear_arith)
            requires (k + 1) * cs > len, len + cs - 1 == q * cs + r, 0 <= r < cs, cs > 0;
    }
}

/// Local histogram of one chunk of bytes.
pub fn chunk_histogram(chunk: &[u8], num_buckets: usize) -> (r: Vec<usize>)
    requires
        all_below(widen(chunk@), num_buckets as int),
    ensures
        r@ == histogram_of(widen(chunk@), num_buckets as nat),
{
    let mut local = zero_counts(num_buckets);
    proof {
        assert(widen(chunk@).take(0) =~= Seq::<usize>::empty());
        lemma_histogram_empty(num_buckets as nat);
    }
    let mut i: usize = 0;
    while i < chunk.len()
        invariant
            0 <= i <= chunk.len(),
            all_below(widen(chunk@), num_buckets as int),
            local@ == histogram_of(widen(chunk@).take(i as int), num_buckets as nat),
        decreases chunk.len() - i,
    {
        let value = chunk[i];
        proof {
            let w = widen(chunk@);
            assert(w[i as int] == value as usize);
            assert(w.take(i + 1) =~= w.take(i as int).push(value as usize));
            lemma_histogram_push(w.take(i as int), value as usize, num_buckets as nat);
            lemma_count_bounded(w.take(i as int), value as int);
        }
        add_one(&mut local, value as usize);
        i = i + 1;
    }
    assert(widen(chunk@).take(chunk.len() as int) =~= widen(chunk@));
    local
}

/// Calls rayon's `par_chunks(chunk_size).map(..).collect()` on `page`, with
/// the verified `chunk_histogram` as the mapped closure. Rayon cuts the
/// slice into consecutive chunks of `chunk_size` items (the last may be
/// shorter) and collects the mapped results in chunk order; the contract
/// claims exactly that.
#[verifier::external_body]
fn par_chunk_histograms(page: &[u8], chunk_size: usize, num_buckets: usize) -> (r: Vec<Vec<usize>>)
    requires
        chunk_size > 0,
        all_below(widen(page@), num_buckets as int),
    ensures
        r@.len() == chunk_count(page@.len() as int, chunk_size as int),
        forall|k: int|
            0 <= k < r@.len() ==> #[trigger] r@[k]@ == histogram_of(
                widen(chunk_of(page@, chunk_size as int, k)),
                num_buckets as nat,
            ),
{
    page.par_chunks(chunk_size).map(|chunk| chunk_histogram(chunk, num_buckets)).collect()
}

/// Puts the empty table `init` of `bins` bins in a `std::sync::Mutex` and
/// calls rayon's `par_iter().for_each(..)` on `page`, where each byte locks
/// the mutex and applies the verified `add_one`; `Mutex::into_inner` hands
/// the table back. Every byte is visited once and the lock makes the
/// increments one at a time, so the contract claims the table ends as the
/// histogram of `page`.
#[verifier::external_body]
fn page_histogram_mutex(page: &[u8], init: Vec<usize>, bins: usize) -> (r: Vec<usize>)
    requires
        init@ == empty_counts(bins as nat),
        all_below(widen(page@), bins as int),
    ensures
        r@ == histogram_of(widen(page@), bins as nat),
{
    let shared = Mutex::new(init);
    page.par_iter().for_each(|&value| add_one(&mut shared.lock().expect("mutex poisoned"), value as usize));
    shared.into_inner().expect("mutex poisoned")
}

/// `len` divided by `parts`, rounded up.
pub fn ceil_div(len: usize, parts: usize) -> (r: usize)
    requires
        parts > 0,
    ensures
        r == chunk_count(len as int, parts as int),
        len > 0 ==> r > 0,
{
    let q = len / parts;
    proof {
        let qi = q as int;
        let d = parts as int;
        let rem = (len % parts) as int;
        vstd::arithmetic::div_mod::lemma_fundamental_div_mod(len as int, d);
        assert(d * qi == qi * d) by (nonlinear_arith);
        assert(len == qi * d + rem);
        if rem == 0 {
            vstd::arithmetic::div_mod::lemma_fundamental_div_mod_converse(len + d - 1, d, qi, d - 1);
            if len > 0 && qi <= 0 {
                assert(qi * d <= 0) by (nonlinear_arith)
                    requires qi <= 0, d > 0;
            }
        } else {
            assert((qi + 1) * d == qi * d + d) by (nonlinear_arith);
            assert(qi < usize::MAX) by (nonlinear_arith)
                requires len == qi * d + rem, rem > 0, rem < d, len <= usize::MAX, qi >= 0;
            vstd::arithmetic::div_mod::lemma_fundamental_div_mod_converse(
                len + d - 1,
                d,
                qi + 1,
                rem - 1,
            );
        }
    }
    if len % parts == 0 {
        q
    } else {
        q + 1
    }
}

/// Adding the next chunk's items to the items of the chunks before it gives
/// the items up to the end of that chunk.
pub proof fn lemma_chunks_prefix_step(page: Seq<u8>, cs: int, k: int)
    requires
        cs > 0,
        0 <= k < chunk_count(page.len() as int, cs),
    ensures
        widen(page).take(chunks_end(k + 1, cs, page.len() as int)) == widen(page).take(
            chunks_end(k, cs, page.len() as int),
        ) + widen(chunk_of(page, cs, k)),
{
    let len = page.len() as int;
    lemma_chunk_count(len, cs, k);
    let a = chunks_end(k, cs, len);
    let b = chunks_end(k + 1, cs, len);
    assert(a == k * cs);
    assert((k + 1) * cs == k * cs + cs) by (nonlinear_arith);
    assert(a <= b <= len);
    assert(widen(page).take(b) =~= widen(page).take(a) + widen(chunk_of(page, cs, k)));
}

/// The chunks together cover the whole sequence.
pub proof fn lemma_chunks_cover(len: int, cs: int)
    requires
        len > 0,
        cs > 0,
    ensures
        chunks_end(chunk_count(len, cs), cs, len) == len,
{
    let c = chunk_count(len, cs);
    assert(c >= 1) by {
        vstd::arithmetic::div_mod::lemma_fundamental_div_mod(len + cs - 1, cs);
        if c <= 0 {
            assert(cs * c <= 0) by (nonlinear_arith)
                requires c <= 0, cs > 0;
        }
    }
    lemma_chunk_count(len, cs, c - 1);
    assert(c * cs == (c - 1) * cs + cs) by (nonlinear_arith);
}

/// Histogram of a page of bytes, computed on `pool`: the page is cut into
/// `num_threads` chunks, each chunk is counted in parallel into its own
/// table, and the tables are then summed bin by bin into the first
/// `num_buckets` bins of `histogram`.
#[verifier::rlimit(30)]
pub fn compute_histogram_in_pool(
    pool: &ThreadPool,
    page: &[u8],
    histogram: &mut [usize],
    num_buckets: usize,
    num_threads: usize,
)
    requires
        page.len() > 0,
        num_threads > 0,
        num_buckets <= old(histogram).len(),
        all_below(widen(page@), num_buckets as int),
    ensures
        final(histogram)@.len() == old(histogram)@.len(),
        forall|b: int|
            0 <= b < old(histogram)@.len() ==> #[trigger] final(histogram)@[b] == if b < num_buckets {
                count_of(widen(page@), b) as usize
            } else {
                old(histogram)@[b]
            },
{
    let chunk_size = ceil_div(page.len(), num_threads);
    let count_chunks = (
        || -> (r: Vec<Vec<usize>>)
            requires
                chunk_size > 0,
                all_below(widen(page@), num_buckets as int),
            ensures
                r@.len() == chunk_count(page@.len() as int, chunk_size as int),
                forall|k: int|
                    0 <= k < r@.len() ==> #[trigger] r@[k]@ == histogram_of(
                        widen(chunk_of(page@, chunk_size as int, k)),
                        num_buckets as nat,
                    ),
            { par_chunk_histograms(page, chunk_size, num_buckets) }
    );
    let locals = install(pool, count_chunks);
    let ghost w = widen(page@);
    let ghost len = page@.len() as int;
    let ghost cs = chunk_size as int;
    let ghost h0 = histogram@;
    let mut bucket: usize = 0;
    while bucket < num_buckets
        invariant
            0 <= bucket <= num_buckets,
            num_buckets <= h0.len(),
            histogram@.len() == h0.len(),
            w == widen(page@),
            len == page@.len(),
            len > 0,
            cs == chunk_size,
            cs > 0,
            len <= usize::MAX,
            locals@.len() == chunk_count(len, cs),
            forall|k: int|
                0 <= k < locals@.len() ==> #[trigger] locals@[k]@ == histogram_of(
                    widen(chunk_of(page@, cs, k)),
                    num_buckets as nat,
                ),
            forall|b: int| 0 <= b < bucket ==> #[trigger] histogram@[b] == count_of(w, b) as usize,
            forall|b: int| bucket <= b < h0.len() ==> #[trigger] histogram@[b] == h0[b],
        decreases num_buckets - bucket,
    {
        histogram[bucket] = 0;
        let mut k: usize = 0;
        while k < locals.len()
            invariant
                0 <= k <= locals@.len(),
                bucket < num_buckets,
                num_buckets <= h0.len(),
                histogram@.len() == h0.len(),
                w == widen(page@),
                len == page@.len(),
                cs == chunk_size,
                cs > 0,
                len <= usize::MAX,
                locals@.len() == chunk_count(len, cs),
                forall|k: int|
                    0 <= k < locals@.len() ==> #[trigger] locals@[k]@ == histogram_of(
                        widen(chunk_of(page@, cs, k)),
                        num_buckets as nat,
                    ),
                histogram@[bucket as int] == count_of(w.take(chunks_end(k as int, cs, len)), bucket as int),
                forall|b: int| 0 <= b < bucket ==> #[trigger] histogram@[b] == count_of(w, b) as usize,
                forall|b: int| bucket < b < h0.len() ==> #[trigger] histogram@[b] == h0[b],
            decreases locals@.len() - k,
        {
            proof {
                lemma_chunks_prefix_step(page@, cs, k as int);
                lemma_count_concat(
                    w.take(chunks_end(k as int, cs, len)),
                    widen(chunk_of(page@, cs, k as int)),
                    bucket as int,
                );
                lemma_count_bounded(w.take(chunks_end(k + 1, cs, len)), bucket as int);
                lemma_chunk_count(len, cs, k as int);
                assert(locals@[k as int]@[bucket as int] == count_of(
                    widen(chunk_of(page@, cs, k as int)),
                    bucket as int,
                ) as usize);
                lemma_count_bounded(widen(chunk_of(page@, cs, k as int)), bucket as int);
            }
            histogram[bucket] = histogram[bucket] + locals[k][bucket];
            k = k + 1;
        }
        proof {
            lemma_chunks_cover(len, cs);
            assert(w.take(len) =~= w);
        }
        bucket = bucket + 1;
    }
}


/// Histogram of a page of bytes, computed on a new pool of `num_threads`
/// workers as `compute_histogram_in_pool` does. It fails only when rayon
/// cannot build the pool: the error is then the message of rayon's build
/// error, and `histogram` is untouched.
pub fn compute_histogram(
    page: &[u8],
    histogram: &mut [usize],
    num_buckets: usize,
    num_threads: usize,
) -> (r: Result<(), String>)
    requires
        page.len() > 0,
        num_threads > 0,
        num_buckets <= old(histogram).len(),
        all_below(widen(page@), num_buckets as int),
    ensures
        final(histogram)@.len() == old(histogram)@.len(),
        r is Err ==> final(histogram)@ == old(histogram)@,
        r matches Err(t) ==> is_pool_error_text(t@),
        r is Ok ==> forall|b: int|
            0 <= b < old(histogram)@.len() ==> #[trigger] final(histogram)@[b] == if b < num_buckets {
                count_of(widen(page@), b) as usize
            } else {
                old(histogram)@[b]
            },
{
    let pool = match build_thread_pool(num_threads) {
        Ok(pool) => pool,
        Err(e) => return Err(e),
    };
    compute_histogram_in_pool(&pool, page, histogram, num_buckets, num_threads);
    Ok(())
}

/// Histogram of a page of bytes over `histogram.len()` bins, computed on
/// `pool` by workers that all count into one table guarded by a lock; the
/// table is then copied into `histogram`.
pub fn compute_histogram_mutex_in_pool(pool: &ThreadPool, page: &[u8], histogram: &mut [usize])
    requires
        all_below(widen(page@), old(histogram)@.len() as int),
    ensures
        final(histogram)@ == histogram_of(widen(page@), old(histogram)@.len()),
{
    let bins = histogram.len();
    let count_shared = (
        || -> (r: Vec<usize>)
            requires
                all_below(widen(page@), bins as int),
            ensures
                r@ == histogram_of(widen(page@), bins as nat),
            { page_histogram_mutex(page, zero_counts(bins), bins) }
    );
    let result = install(pool, count_shared);
    let ghost h0 = histogram@;
    let mut i: usize = 0;
    while i < bins
        invariant
            0 <= i <= bins,
            bins == h0.len(),
            histogram@.len() == bins,
            result@ == histogram_of(widen(page@), bins as nat),
            forall|b: int| 0 <= b < i ==> #[trigger] histogram@[b] == result@[b],
        decreases bins - i,
    {
        histogram[i] = result[i];
        i = i + 1;
    }
    assert(histogram@ =~= histogram_of(widen(page@), bins as nat));
}

/// Histogram of a page of bytes, computed on a new pool of `num_threads`
/// workers as `compute_histogram_mutex_in_pool` does. It fails only when
/// rayon cannot build the pool: the error is then the message of rayon's
/// build error, and `histogram` is untouched.
pub fn compute_histogram_mutex(page: &[u8], histogram: &mut [usize], num_threads: usize) -> (r:
    Result<(), String>)
    requires
        all_below(widen(page@), old(histogram)@.len() as int),
    ensures
        r is Err ==> final(histogram)@ == old(histogram)@,
        r matches Err(t) ==> is_pool_error_text(t@),
        r is Ok ==> final(histogram)@ == histogram_of(widen(page@), old(histogram)@.len()),
{
    let pool = match build_thread_pool(num_threads) {
        Ok(pool) => pool,
        Err(e) => return Err(e),
    };
    compute_histogram_mutex_in_pool(&pool, page, histogram);
    Ok(())
}

} // verus!
