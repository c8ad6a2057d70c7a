use vstd::prelude::*;

use rayon::{ThreadPool, ThreadPoolBuildError, ThreadPoolBuilder};
use vstd::string::to_string_from_display_ensures;

verus! {

#[verifier::external_type_specification]
#[verifier::external_body]
pub struct ExThreadPool(rayon::ThreadPool);

#[verifier::external_type_specification]
#[verifier::external_body]
pub struct ExThreadPoolBuildError(rayon::ThreadPoolBuildError);

/// Number of worker threads of a rayon pool, as
/// `ThreadPool::current_num_threads` reports it. Rayon fixes it when the
/// pool is built.
pub uninterp spec fn pool_threads(pool: ThreadPool) -> usize;

/// What rayon gives a pool built with `num_threads` requested: at least one
/// worker; for a non-zero request, the requested count capped at rayon's
/// `max_num_threads()`, which is at least 255 on every target.
pub open spec fn pool_size_fits(pool: ThreadPool, num_threads: usize) -> bool {
    &&& pool_threads(pool) >= 1
    &&& num_threads > 0 ==> pool_threads(pool) <= num_threads
    &&& 0 < num_threads <= 255 ==> pool_threads(pool) == num_threads
    &&& num_threads > 255 ==> pool_threads(pool) >= 255
}

/// Calls `ThreadPoolBuilder::new().num_threads(num_threads).build()`.
/// Whether the pool can be built depends on the machine (spawning threads
/// may fail), so success is not promised. A pool that is built has
/// `min(n, max_num_threads())` workers, where `n` is `num_threads` or, for
/// zero, rayon's default of at least one (rayon-core's `Registry::new`);
/// the contract claims what `pool_size_fits` states of that.
#[verifier::external_body]
fn build_rayon_pool(num_threads: usize) -> (r: Result<ThreadPool, ThreadPoolBuildError>)
    ensures
        r matches Ok(pool) ==> pool_threads(pool) >= 1,
        r matches Ok(pool) ==> num_threads > 0 ==> pool_threads(pool) <= num_threads,
        r matches Ok(pool) ==> 0 < num_threads <= 255 ==> pool_threads(pool) == num_threads,
        r matches Ok(pool) ==> num_threads > 255 ==> pool_threads(pool) >= 255,
{
    ThreadPoolBuilder::new().num_threads(num_threads).build()
}

/// The message of a pool build error, as rayon's `Display` impl writes it.
fn pool_error_text(e: &ThreadPoolBuildError) -> (r: String)
    ensures
        to_string_from_display_ensures::<ThreadPoolBuildError>(e, r),
{
    e.to_string()
}

/// `t` is the message of some error that rayon's pool builder returned: only
/// a real build failure can produce such a text.
pub open spec fn is_pool_error_text(t: Seq<char>) -> bool {
    exists|e: ThreadPoolBuildError, s: String|
        #[trigger] to_string_from_display_ensures::<ThreadPoolBuildError>(&e, s) && s@ == t
}

/// Calls `ThreadPool::install`, which runs `op` inside the pool and hands
/// back what `op` returned. The contract claims exactly that: the result is
/// one that `op`'s own contract allows.
#[verifier::external_body]
pub(crate) fn install<R: Send, OP: FnOnce() -> R + Send>(pool: &ThreadPool, op: OP) -> (r: R)
    requires
        op.requires(()),
    ensures
        op.ensures((), r),
{
    pool.install(op)
}

/// Builds a rayon thread pool with `num_threads` workers (zero lets rayon
/// choose; rayon caps large requests). Whether it can be built depends on
/// the machine; on failure the error is the text of rayon's build error.
pub fn build_thread_pool(num_threads: usize) -> (r: Result<ThreadPool, String>)
    ensures
        r matches Ok(pool) ==> pool_size_fits(pool, num_threads),
        r matches Err(t) ==> is_pool_error_text(t@),
{
    match build_rayon_pool(num_threads) {
        Ok(pool) => Ok(pool),
        Err(e) => {
            let t = pool_error_text(&e);
            assert(to_string_from_display_ensures::<ThreadPoolBuildError>(&e, t));
            Err(t)
        },
    }
}

} // verus!
