use vstd::prelude::*;

use rayon::ThreadPool;
use std::time::Duration;

use crate::array_min::{array_min_rayon, array_min_seq, generate_array_data, lemma_min_unique};
use crate::clock::{clock_elapsed, clock_now};
use crate::histogram::{
    generate_histogram_data, histogram_mutex, histogram_rayon_local, histogram_seq, zero_counts,
};
use crate::pool::{build_thread_pool, install, is_pool_error_text};

verus! {

/// Which kernel a benchmark run exercises.
#[derive(Debug, Clone, Copy)]
pub enum BenchmarkCase {
    ArrayMin,
    Histogram,
    MatrixMul,
}

/// How the kernel is expressed.
#[derive(Debug, Clone, Copy)]
pub enum ImplKind {
    Sequential,
    RayonLocal,
    Mutex,
}

/// What to run and how often.
#[derive(Debug, Clone)]
pub struct BenchmarkParams {
    pub case: BenchmarkCase,
    pub implementation: ImplKind,
    /// General size parameter.
    pub n: usize,
    /// Number of bins, for the histogram.
    pub bins: usize,
    /// Rows of the product, for the matrix multiplication.
    pub rows: usize,
    /// Columns of the product, for the matrix multiplication.
    pub cols: usize,
    /// Shared dimension of the factors, for the matrix multiplication.
    pub inner: usize,
    pub repeats: usize,
    pub verify: bool,
    pub num_threads: usize,
}

/// Outcome of one timed run.
#[derive(Debug, Clone, Copy)]
pub struct BenchmarkRunResult {
    pub case_name: &'static str,
    pub impl_name: &'static str,
    pub repeat: usize,
    pub elapsed: Duration,
    pub verified: bool,
    pub notes: &'static str,
}

/// Why `p` is refused, if it is.
pub open spec fn validation_error(p: BenchmarkParams) -> Option<Seq<char>> {
    if p.repeats == 0 {
        Some("repeats must be > 0"@)
    } else {
        match p.case {
            BenchmarkCase::ArrayMin => if p.n == 0 {
                Some("array_min requires n > 0"@)
            } else {
                None
            },
            BenchmarkCase::Histogram => if p.n == 0 {
                Some("histogram requires n > 0"@)
            } else if p.bins == 0 {
                Some("histogram requires bins > 0"@)
            } else {
                None
            },
            BenchmarkCase::MatrixMul => if p.rows == 0 || p.cols == 0 || p.inner == 0 {
                Some("matrix_mul requires rows > 0, cols > 0, inner > 0"@)
            } else {
                None
            },
        }
    }
}

/// The generated input of the selected integer case fits its element type.
pub open spec fn sizes_supported(p: BenchmarkParams) -> bool {
    match p.case {
        BenchmarkCase::ArrayMin => p.implementation is Mutex || p.n == 0 || (p.n - 1) * 48271
            <= i64::MAX,
        BenchmarkCase::Histogram => p.n == 0 || (p.n - 1) * 17 + 13 <= usize::MAX,
        BenchmarkCase::MatrixMul => true,
    }
}

/// Which parameters pass the check, stated on the fields: every run needs a
/// repeat; the array minimum needs items, the histogram items and bins, and
/// the matrix product non-zero rows, columns and shared dimension.
pub proof fn lemma_validation_on_fields(p: BenchmarkParams)
    ensures
        validation_error(p) is None <==> p.repeats > 0 && match p.case {
            BenchmarkCase::ArrayMin => p.n > 0,
            BenchmarkCase::Histogram => p.n > 0 && p.bins > 0,
            BenchmarkCase::MatrixMul => p.rows > 0 && p.cols > 0 && p.inner > 0,
        },
{
}

/// `s` begins with `prefix`.
pub open spec fn starts_with(s: Seq<char>, prefix: Seq<char>) -> bool {
    prefix.len() <= s.len() && s.subrange(0, prefix.len() as int) == prefix
}

/// Prefix of the message for a pool that could not be built.
pub open spec fn pool_failure_prefix() -> Seq<char> {
    "failed to build Rayon thread pool: "@
}

/// None of the library's own refusals (a parameter check, the lock-based
/// array minimum) reads as a pool failure, so an error of the benchmark
/// that carries the pool-failure prefix always comes from rayon's builder.
pub proof fn lemma_own_errors_are_not_pool_failures(p: BenchmarkParams)
    ensures
        validation_error(p) matches Some(m) ==> !starts_with(m, pool_failure_prefix()),
        !starts_with(array_min_mutex_message(), pool_failure_prefix()),
{
    reveal_strlit("failed to build Rayon thread pool: ");
    reveal_strlit("repeats must be > 0");
    reveal_strlit("array_min requires n > 0");
    reveal_strlit("histogram requires n > 0");
    reveal_strlit("histogram requires bins > 0");
    reveal_strlit("matrix_mul requires rows > 0, cols > 0, inner > 0");
    reveal_strlit(
        "array_min + mutex is intentionally unsupported in this scaffold; reductions are better expressed as seq or rayon_local",
    );
    let pre = pool_failure_prefix();
    assert(pre[0] == 'f');
    if let Some(m) = validation_error(p) {
        if starts_with(m, pre) {
            assert(m.subrange(0, pre.len() as int)[0] == m[0]);
            assert(m[0] != 'f');
        }
    }
    let a = array_min_mutex_message();
    if starts_with(a, pre) {
        assert(a.subrange(0, pre.len() as int)[0] == a[0]);
    }
}

/// Label of an implementation kind.
pub open spec fn impl_label(kind: ImplKind) -> Seq<char> {
    match kind {
        ImplKind::Sequential => "seq"@,
        ImplKind::RayonLocal => "rayon_local"@,
        ImplKind::Mutex => "mutex"@,
    }
}

/// Refusal of the array minimum with a lock.
pub open spec fn array_min_mutex_message() -> Seq<char> {
    "array_min + mutex is intentionally unsupported in this scaffold; reductions are better expressed as seq or rayon_local"@
}

/// `res` reports repeat `repeat` of `case_name` run as `kind`, with `notes`,
/// and its check flag set exactly when checking was asked for.
pub open spec fn reports(
    res: BenchmarkRunResult,
    case_name: Seq<char>,
    kind: ImplKind,
    repeat: usize,
    verified: bool,
    notes: Seq<char>,
) -> bool {
    &&& res.case_name@ == case_name
    &&& res.impl_name@ == impl_label(kind)
    &&& res.repeat == repeat
    &&& res.verified == verified
    &&& res.notes@ == notes
}

/// Checks the parameters before any work: every run needs a repeat, and
/// each case needs non-zero sizes.
pub fn validate_params(params: &BenchmarkParams) -> (r: Result<(), String>)
    ensures
        r is Ok <==> validation_error(*params) is None,
        r matches Err(e) ==> validation_error(*params) == Some(e@),
        params.repeats == 0 ==> r is Err,
        params.case is ArrayMin ==> (r is Ok <==> params.repeats > 0 && params.n > 0),
        params.case is Histogram ==> (r is Ok <==> params.repeats > 0 && params.n > 0 && params.bins
            > 0),
        params.case is MatrixMul ==> (r is Ok <==> params.repeats > 0 && params.rows > 0
            && params.cols > 0 && params.inner > 0),
{
    if params.repeats == 0 {
        return Err("repeats must be > 0".to_string());
    }
    match params.case {
        BenchmarkCase::ArrayMin => {
            if params.n == 0 {
                return Err("array_min requires n > 0".to_string());
            }
        },
        BenchmarkCase::Histogram => {
            if params.n == 0 {
                return Err("histogram requires n > 0".to_string());
            }
            if params.bins == 0 {
                return Err("histogram requires bins > 0".to_string());
            }
        },
        BenchmarkCase::MatrixMul => {
            if params.rows == 0 || params.cols == 0 || params.inner == 0 {
                return Err("matrix_mul requires rows > 0, cols > 0, inner > 0".to_string());
            }
        },
    }
    Ok(())
}

/// Label of an implementation kind, as reported in results.
pub fn impl_name(kind: ImplKind) -> (r: &'static str)
    ensures
        r@ == impl_label(kind),
{
    match kind {
        ImplKind::Sequential => "seq",
        ImplKind::RayonLocal => "rayon_local",
        ImplKind::Mutex => "mutex",
    }
}

/// One timed run of the array minimum on the generated input. The lock-based
/// form is refused before any work. When checking is asked for, the result
/// is compared with a sequential scan.
pub fn run_array_min(params: &BenchmarkParams, repeat: usize) -> (r: Result<BenchmarkRunResult, String>)
    requires
        params.implementation !is Mutex ==> params.n > 0 && (params.n - 1) * 48271 <= i64::MAX,
    ensures
        r is Err <==> params.implementation is Mutex,
        r matches Err(e) ==> e@ == array_min_mutex_message(),
        r matches Ok(res) ==> reports(
            res,
            "array_min"@,
            params.implementation,
            repeat,
            params.verify,
            "simple reduction benchmark"@,
        ),
{
    if let ImplKind::Mutex = params.implementation {
        return Err(
            "array_min + mutex is intentionally unsupported in this scaffold; reductions are better expressed as seq or rayon_local".to_string(),
        );
    }
    let data = generate_array_data(params.n);

    let start = clock_now();
    let result = if let ImplKind::Sequential = params.implementation {
        array_min_seq(&data)
    } else {
        array_min_rayon(&data)
    };
    let elapsed = clock_elapsed(&start);

    let verified = if params.verify {
        let baseline = array_min_seq(&data);
        proof {
            lemma_min_unique(data@, result, baseline);
        }
        result == baseline
    } else {
        false
    };

    Ok(
        BenchmarkRunResult {
            case_name: "array_min",
            impl_name: impl_name(params.implementation),
            repeat,
            elapsed,
            verified,
            notes: "simple reduction benchmark",
        },
    )
}

/// One timed run of the histogram on the generated input. When checking is
/// asked for, the result is compared with the sequential histogram.
pub fn run_histogram(params: &BenchmarkParams, repeat: usize) -> (r: Result<BenchmarkRunResult, String>)
    requires
        params.n == 0 || params.bins > 0,
        params.n == 0 || (params.n - 1) * 17 + 13 <= usize::MAX,
    ensures
        r matches Ok(res) && reports(
            res,
            "histogram"@,
            params.implementation,
            repeat,
            params.verify,
            "shared-write / reduction benchmark"@,
        ),
{
    let data = generate_histogram_data(params.n, params.bins);

    let start = clock_now();
    let hist = match params.implementation {
        ImplKind::Sequential => histogram_seq(&data, params.bins),
        ImplKind::RayonLocal => histogram_rayon_local(&data, params.bins),
        ImplKind::Mutex => histogram_mutex(&data, zero_counts(params.bins), params.bins),
    };
    let elapsed = clock_elapsed(&start);

    let verified = if params.verify {
        let baseline = histogram_seq(&data, params.bins);
        hist == baseline
    } else {
        false
    };

    Ok(
        BenchmarkRunResult {
            case_name: "histogram",
            impl_name: impl_name(params.implementation),
            repeat,
            elapsed,
            verified,
            notes: "shared-write / reduction benchmark",
        },
    )
}

/// What a run of repeat `repeat` may give: the array minimum and the
/// histogram as stated by `run_array_min` and `run_histogram`, and the matrix
/// multiplication whatever the supplied runner's contract allows.
pub open spec fn case_outcome<F: Fn(&BenchmarkParams, usize) -> Result<BenchmarkRunResult, String>>(
    params: BenchmarkParams,
    repeat: usize,
    matrix_mul: &F,
    r: Result<BenchmarkRunResult, String>,
) -> bool {
    match params.case {
        BenchmarkCase::ArrayMin => match r {
            Ok(res) => !(params.implementation is Mutex) && reports(
                res,
                "array_min"@,
                params.implementation,
                repeat,
                params.verify,
                "simple reduction benchmark"@,
            ),
            Err(e) => params.implementation is Mutex && e@ == array_min_mutex_message(),
        },
        BenchmarkCase::Histogram => r matches Ok(res) && reports(
            res,
            "histogram"@,
            params.implementation,
            repeat,
            params.verify,
            "shared-write / reduction benchmark"@,
        ),
        BenchmarkCase::MatrixMul => matrix_mul.ensures((&params, repeat), r),
    }
}

/// Runs repeat `repeat` of the selected case. The matrix multiplication,
/// which works on floating-point matrices, is done by `matrix_mul`.
pub fn run_case<F: Fn(&BenchmarkParams, usize) -> Result<BenchmarkRunResult, String>>(
    params: &BenchmarkParams,
    repeat: usize,
    matrix_mul: &F,
) -> (r: Result<BenchmarkRunResult, String>)
    requires
        validation_error(*params) is None,
        sizes_supported(*params),
        matrix_mul.requires((params, repeat)),
    ensures
        case_outcome(*params, repeat, matrix_mul, r),
{
    match params.case {
        BenchmarkCase::ArrayMin => run_array_min(params, repeat),
        BenchmarkCase::Histogram => run_histogram(params, repeat),
        BenchmarkCase::MatrixMul => matrix_mul(params, repeat),
    }
}

/// Runs repeats `1..=params.repeats` of the selected case on `pool`, in
/// order, and stops at the first run that fails, with its error.
pub fn run_repeats<F: Fn(&BenchmarkParams, usize) -> Result<BenchmarkRunResult, String> + Sync>(
    params: &BenchmarkParams,
    pool: &ThreadPool,
    matrix_mul: &F,
) -> (r: Result<Vec<BenchmarkRunResult>, String>)
    requires
        validation_error(*params) is None,
        sizes_supported(*params),
        forall|repeat: usize| matrix_mul.requires((params, repeat)),
    ensures
        r matches Ok(results) ==> {
            &&& results@.len() == params.repeats
            &&& forall|i: int|
                0 <= i < results@.len() ==> case_outcome(
                    *params,
                    (i + 1) as usize,
                    matrix_mul,
                    Ok(#[trigger] results@[i]),
                )
        },
        r matches Err(e) ==> exists|repeat: usize|
            1 <= repeat <= params.repeats && #[trigger] case_outcome(*params, repeat, matrix_mul, Err(e)),
        params.case !is MatrixMul ==> (r is Ok <==> !(params.case is ArrayMin
            && params.implementation is Mutex)),
{
    let mut results: Vec<BenchmarkRunResult> = Vec::with_capacity(params.repeats);
    let mut i: usize = 0;
    while i < params.repeats
        invariant
            0 <= i <= params.repeats,
            validation_error(*params) is None,
            sizes_supported(*params),
            forall|repeat: usize| matrix_mul.requires((params, repeat)),
            results@.len() == i,
            forall|k: int|
                0 <= k < i ==> case_outcome(*params, (k + 1) as usize, matrix_mul, Ok(#[trigger] results@[k])),
        decreases params.repeats - i,
    {
        let repeat = i + 1;
        let one_run = (
            || -> (r: Result<BenchmarkRunResult, String>)
                requires
                    validation_error(*params) is None,
                    sizes_supported(*params),
                    matrix_mul.requires((params, repeat)),
                ensures
                    case_outcome(*params, repeat, matrix_mul, r),
                { run_case(params, repeat, matrix_mul) }
        );
        match install(pool, one_run) {
            Ok(result) => results.push(result),
            Err(e) => {
                let r: Result<Vec<BenchmarkRunResult>, String> = Err(e);
                proof {
                    // The failing repeat witnesses the error clause.
                    assert(case_outcome(*params, repeat, matrix_mul, Err(r->Err_0)));
                }
                return r;
            },
        }
        i = i + 1;
    }
    proof {
        if params.repeats > 0 {
            assert(case_outcome(*params, 1usize, matrix_mul, Ok(results@[0])));
        }
    }
    Ok(results)
}

/// Checks the parameters, builds a pool of `params.num_threads` workers and
/// runs `params.repeats` timed repeats of the selected case on it. The
/// matrix multiplication, which works on floating-point matrices, is done by
/// `matrix_mul`. Fails with the parameter check's message, with
/// "failed to build Rayon thread pool: " and rayon's message, or with the
/// first failing run's error.
pub fn run_programmability_benchmark<F: Fn(&BenchmarkParams, usize) -> Result<BenchmarkRunResult, String> + Sync>(
    params: &BenchmarkParams,
    matrix_mul: &F,
) -> (r: Result<Vec<BenchmarkRunResult>, String>)
    requires
        validation_error(*params) is None ==> sizes_supported(*params),
        forall|repeat: usize| matrix_mul.requires((params, repeat)),
    ensures
        validation_error(*params) matches Some(msg) ==> r matches Err(e) && e@ == msg,
        r matches Err(e) ==> {
            ||| validation_error(*params) == Some(e@)
            ||| exists|rest: Seq<char>|
                e@ == pool_failure_prefix() + rest && #[trigger] is_pool_error_text(rest)
            ||| exists|repeat: usize|
                1 <= repeat <= params.repeats && #[trigger] case_outcome(*params, repeat, matrix_mul, Err(e))
        },
        r matches Ok(results) ==> {
            &&& validation_error(*params) is None
            &&& results@.len() == params.repeats
            &&& forall|i: int|
                0 <= i < results@.len() ==> case_outcome(
                    *params,
                    (i + 1) as usize,
                    matrix_mul,
                    Ok(#[trigger] results@[i]),
                )
        },
{
    match validate_params(params) {
        Ok(()) => {},
        Err(e) => return Err(e),
    }
    let pool = match build_thread_pool(params.num_threads) {
        Ok(pool) => pool,
        Err(e) => {
            let mut message = "failed to build Rayon thread pool: ".to_string();
            message.append(e.as_str());
            return Err(message);
        },
    };
    run_repeats(params, &pool, matrix_mul)
}

} // verus!
