use parbench::pool::build_thread_pool;
use parbench::programmability::{
    impl_name, run_array_min, run_case, run_histogram, run_programmability_benchmark, run_repeats,
    validate_params, BenchmarkCase, BenchmarkParams, BenchmarkRunResult, ImplKind,
};
use std::time::Duration;

fn params(case: BenchmarkCase, implementation: ImplKind) -> BenchmarkParams {
    BenchmarkParams {
        case,
        implementation,
        n: 5000,
        bins: 16,
        rows: 4,
        cols: 4,
        inner: 4,
        repeats: 2,
        verify: true,
        num_threads: 2,
    }
}

fn fake_matrix(p: &BenchmarkParams, repeat: usize) -> Result<BenchmarkRunResult, String> {
    if let ImplKind::Mutex = p.implementation {
        return Err("no mutex".to_string());
    }
    Ok(BenchmarkRunResult {
        case_name: "matrix_mul",
        impl_name: impl_name(p.implementation),
        repeat,
        elapsed: Duration::from_millis(0),
        verified: p.verify,
        notes: "stand-in",
    })
}

#[test]
fn validate_params_messages() {
    let mut p = params(BenchmarkCase::ArrayMin, ImplKind::Sequential);
    assert_eq!(validate_params(&p), Ok(()));
    p.repeats = 0;
    assert_eq!(validate_params(&p), Err("repeats must be > 0".to_string()));
    p.repeats = 1;
    p.n = 0;
    assert_eq!(validate_params(&p), Err("array_min requires n > 0".to_string()));
    p.case = BenchmarkCase::Histogram;
    assert_eq!(validate_params(&p), Err("histogram requires n > 0".to_string()));
    p.n = 3;
    p.bins = 0;
    assert_eq!(validate_params(&p), Err("histogram requires bins > 0".to_string()));
    p.case = BenchmarkCase::MatrixMul;
    assert_eq!(validate_params(&p), Ok(()));
    p.cols = 0;
    assert_eq!(
        validate_params(&p),
        Err("matrix_mul requires rows > 0, cols > 0, inner > 0".to_string())
    );
}

#[test]
fn validate_repeats_checked_first() {
    let mut p = params(BenchmarkCase::Histogram, ImplKind::Sequential);
    p.repeats = 0;
    p.n = 0;
    assert_eq!(validate_params(&p), Err("repeats must be > 0".to_string()));
}

#[test]
fn impl_names() {
    assert_eq!(impl_name(ImplKind::Sequential), "seq");
    assert_eq!(impl_name(ImplKind::RayonLocal), "rayon_local");
    assert_eq!(impl_name(ImplKind::Mutex), "mutex");
}

#[test]
fn run_array_min_reports() {
    for kind in [ImplKind::Sequential, ImplKind::RayonLocal] {
        let r = run_array_min(&params(BenchmarkCase::ArrayMin, kind), 7).unwrap();
        assert_eq!(r.case_name, "array_min");
        assert_eq!(r.impl_name, impl_name(kind));
        assert_eq!(r.repeat, 7);
        assert!(r.verified);
        assert_eq!(r.notes, "simple reduction benchmark");
    }
    let mut p = params(BenchmarkCase::ArrayMin, ImplKind::RayonLocal);
    p.verify = false;
    assert!(!run_array_min(&p, 1).unwrap().verified);
}

#[test]
fn run_array_min_refuses_mutex() {
    let e = run_array_min(&params(BenchmarkCase::ArrayMin, ImplKind::Mutex), 1).unwrap_err();
    assert_eq!(
        e,
        "array_min + mutex is intentionally unsupported in this scaffold; reductions are better expressed as seq or rayon_local"
    );
}

#[test]
fn run_histogram_reports() {
    for kind in [ImplKind::Sequential, ImplKind::RayonLocal, ImplKind::Mutex] {
        let r = run_histogram(&params(BenchmarkCase::Histogram, kind), 3).unwrap();
        assert_eq!(r.case_name, "histogram");
        assert_eq!(r.impl_name, impl_name(kind));
        assert_eq!(r.repeat, 3);
        assert!(r.verified);
        assert_eq!(r.notes, "shared-write / reduction benchmark");
    }
}

#[test]
fn run_case_dispatches_matrix_to_runner() {
    let p = params(BenchmarkCase::MatrixMul, ImplKind::RayonLocal);
    let r = run_case(&p, 4, &fake_matrix).unwrap();
    assert_eq!(r.case_name, "matrix_mul");
    assert_eq!(r.notes, "stand-in");
    assert_eq!(r.repeat, 4);
}

#[test]
fn run_repeats_numbers_repeats() {
    let pool = build_thread_pool(2).unwrap();
    let mut p = params(BenchmarkCase::Histogram, ImplKind::Mutex);
    p.repeats = 4;
    let rs = run_repeats(&p, &pool, &fake_matrix).unwrap();
    assert_eq!(rs.iter().map(|r| r.repeat).collect::<Vec<_>>(), vec![1, 2, 3, 4]);
    assert!(rs.iter().all(|r| r.verified));
}

#[test]
fn run_programmability_benchmark_all_cases() {
    for case in [BenchmarkCase::ArrayMin, BenchmarkCase::Histogram, BenchmarkCase::MatrixMul] {
        for kind in [ImplKind::Sequential, ImplKind::RayonLocal] {
            let rs = run_programmability_benchmark(&params(case, kind), &fake_matrix).unwrap();
            assert_eq!(rs.len(), 2);
            assert_eq!(rs[0].repeat, 1);
            assert_eq!(rs[1].repeat, 2);
            assert!(rs.iter().all(|r| r.verified));
        }
    }
}

#[test]
fn run_programmability_benchmark_errors() {
    let mut p = params(BenchmarkCase::ArrayMin, ImplKind::Mutex);
    assert!(run_programmability_benchmark(&p, &fake_matrix)
        .unwrap_err()
        .starts_with("array_min + mutex"));
    p.case = BenchmarkCase::MatrixMul;
    assert_eq!(run_programmability_benchmark(&p, &fake_matrix).unwrap_err(), "no mutex");
    p.case = BenchmarkCase::Histogram;
    p.bins = 0;
    assert_eq!(
        run_programmability_benchmark(&p, &fake_matrix).unwrap_err(),
        "histogram requires bins > 0"
    );
}

#[test]
fn run_array_min_refuses_mutex_on_empty_input() {
    let mut p = params(BenchmarkCase::ArrayMin, ImplKind::Mutex);
    p.n = 0;
    assert!(run_array_min(&p, 1).unwrap_err().starts_with("array_min + mutex"));
}

#[test]
fn run_histogram_empty_without_bins() {
    let mut p = params(BenchmarkCase::Histogram, ImplKind::Mutex);
    p.n = 0;
    p.bins = 0;
    for kind in [ImplKind::Sequential, ImplKind::RayonLocal, ImplKind::Mutex] {
        p.implementation = kind;
        let r = run_histogram(&p, 2).unwrap();
        assert!(r.verified);
        assert_eq!(r.repeat, 2);
    }
}

#[test]
fn validation_runs_before_size_limits() {
    let mut p = params(BenchmarkCase::ArrayMin, ImplKind::Sequential);
    p.repeats = 0;
    p.n = usize::MAX;
    assert_eq!(
        run_programmability_benchmark(&p, &fake_matrix).unwrap_err(),
        "repeats must be > 0"
    );
}

#[test]
fn run_results_can_be_copied() {
    let r = run_histogram(&params(BenchmarkCase::Histogram, ImplKind::Sequential), 1).unwrap();
    let copy = r.clone();
    assert_eq!(copy.case_name, r.case_name);
    assert_eq!(copy.elapsed, r.elapsed);
}
