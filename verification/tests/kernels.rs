use parbench::array_min::{array_min_seq, generate_array_data};
use parbench::grid::index;
use parbench::histogram::{
    add_item, add_one, generate_histogram_data, histogram_seq, merge_counts, zero_counts,
};
use parbench::matrix::{benchmark, fill_product_row, mat_multiplier};
use parbench::page_histogram::{
    ceil_div, chunk_histogram, compute_histogram, compute_histogram_in_pool,
    compute_histogram_mutex, compute_histogram_mutex_in_pool,
};
use parbench::pool::build_thread_pool;

#[test]
fn index_is_row_major() {
    assert_eq!(index(0, 0, 5), 0);
    assert_eq!(index(2, 3, 5), 13);
    assert_eq!(index(4, 4, 5), 24);
}

#[test]
fn index_distinct_cells_distinct_positions() {
    let n = 4;
    let mut seen = vec![false; n * n];
    for i in 0..n {
        for j in 0..n {
            let k = index(i, j, n);
            assert!(!seen[k]);
            seen[k] = true;
        }
    }
    assert!(seen.iter().all(|&b| b));
}

#[test]
fn zero_counts_is_all_zero() {
    assert_eq!(zero_counts(4), vec![0, 0, 0, 0]);
    assert_eq!(zero_counts(0), Vec::<usize>::new());
}

#[test]
fn add_one_bumps_one_bin() {
    let mut c = vec![3, 0, 7];
    add_one(&mut c, 2);
    assert_eq!(c, vec![3, 0, 8]);
    assert_eq!(add_item(vec![0, 0], 0), vec![1, 0]);
}

#[test]
fn merge_counts_adds_bin_by_bin() {
    assert_eq!(merge_counts(vec![1, 2, 3], vec![10, 0, 5], 3), vec![11, 2, 8]);
}

#[test]
fn merge_of_parts_is_histogram_of_whole() {
    let data = vec![0usize, 2, 2, 1, 0, 2, 1];
    let left = histogram_seq(&data[..3], 3);
    let right = histogram_seq(&data[3..], 3);
    assert_eq!(merge_counts(left, right, 3), histogram_seq(&data, 3));
}

#[test]
fn histogram_seq_counts_items() {
    let data = vec![0usize, 2, 2, 1, 0, 2, 1];
    assert_eq!(histogram_seq(&data, 3), vec![2, 2, 3]);
    assert_eq!(histogram_seq(&data, 5), vec![2, 2, 3, 0, 0]);
    assert_eq!(histogram_seq(&[], 2), vec![0, 0]);
}

#[test]
fn histogram_total_is_item_count() {
    let data = generate_histogram_data(1000, 7);
    let h = histogram_seq(&data, 7);
    assert_eq!(h.iter().sum::<usize>(), 1000);
}

#[test]
fn generate_histogram_data_formula() {
    assert_eq!(generate_histogram_data(5, 4), vec![1, 2, 3, 0, 1]);
    assert_eq!(generate_histogram_data(0, 4), Vec::<usize>::new());
    assert_eq!(generate_histogram_data(0, 0), Vec::<usize>::new());
    assert!(generate_histogram_data(100, 9).iter().all(|&x| x < 9));
}

#[test]
fn generate_array_data_formula() {
    assert_eq!(generate_array_data(3), vec![-500_000, -451_729, -403_458]);
    let d = generate_array_data(30);
    assert_eq!(d[21], (21 * 48271) % 1_000_003 - 500_000);
    assert_eq!(d[21], -486_312);
}

#[test]
fn array_min_seq_finds_minimum() {
    assert_eq!(array_min_seq(&[5, -3, 7, -3, 0]), -3);
    assert_eq!(array_min_seq(&[42]), 42);
    assert_eq!(array_min_seq(&[i64::MAX, i64::MIN]), i64::MIN);
    let d = generate_array_data(1000);
    assert_eq!(array_min_seq(&d), *d.iter().min().unwrap());
}

#[test]
fn ceil_div_rounds_up() {
    assert_eq!(ceil_div(10, 3), 4);
    assert_eq!(ceil_div(9, 3), 3);
    assert_eq!(ceil_div(1, 8), 1);
    assert_eq!(ceil_div(0, 8), 0);
    assert_eq!(ceil_div(usize::MAX, 2), usize::MAX / 2 + 1);
}

#[test]
fn chunk_histogram_counts_bytes() {
    assert_eq!(chunk_histogram(&[1, 1, 0, 3], 4), vec![1, 2, 0, 1]);
}

#[test]
fn compute_histogram_matches_counts() {
    let page: Vec<u8> = (0..1001u32).map(|i| ((i * 7 + 3) % 10) as u8).collect();
    let mut hist = vec![99usize; 12];
    compute_histogram(&page, &mut hist, 10, 3).unwrap();
    let mut expected = vec![0usize; 10];
    for &b in &page {
        expected[b as usize] += 1;
    }
    assert_eq!(&hist[..10], &expected[..]);
    assert_eq!(&hist[10..], &[99, 99]);
}

#[test]
fn compute_histogram_more_threads_than_bytes() {
    let page = vec![4u8, 4, 0];
    let mut hist = vec![0usize; 5];
    compute_histogram(&page, &mut hist, 5, 8).unwrap();
    assert_eq!(hist, vec![1, 0, 0, 0, 2]);
}

#[test]
fn compute_histogram_mutex_matches_counts() {
    let page: Vec<u8> = (0..777u32).map(|i| ((i * 13 + 1) % 10) as u8).collect();
    let mut hist = vec![5usize; 10];
    compute_histogram_mutex(&page, &mut hist, 4).unwrap();
    let mut expected = vec![0usize; 10];
    for &b in &page {
        expected[b as usize] += 1;
    }
    assert_eq!(hist, expected);
}

#[test]
fn fill_product_row_computes_dot_products() {
    // a is 2 x 3, b is 3 x 2
    let a = vec![1, 2, 3, 4, 5, 6];
    let b = vec![7, 8, 9, 10, 11, 12];
    let mut row = vec![0i32; 2];
    fill_product_row(1, 3, 2, &a, &b, &mut row);
    assert_eq!(row, vec![4 * 7 + 5 * 9 + 6 * 11, 4 * 8 + 5 * 10 + 6 * 12]);
}

#[test]
fn mat_multiplier_multiplies() {
    let a = vec![1, 2, 3, 4, 5, 6];
    let b = vec![7, 8, 9, 10, 11, 12];
    let mut c = vec![0i32; 4];
    mat_multiplier(3, 2, &a, &b, &mut c);
    assert_eq!(c, vec![58, 64, 139, 154]);
}

#[test]
fn mat_multiplier_short_last_row() {
    let a = vec![1, 2, 3, 4];
    let b = vec![1, 0, 0, 1];
    let mut c = vec![0i32; 3];
    mat_multiplier(2, 2, &a, &b, &mut c);
    assert_eq!(c, vec![1, 2, 3]);
}

#[test]
fn benchmark_product_is_identity() {
    let pool = build_thread_pool(2).unwrap();
    for n in [1usize, 3, 10] {
        let (_elapsed, product) = benchmark(&pool, n);
        for i in 0..n {
            for j in 0..n {
                assert_eq!(product[i * n + j], if i == j { 1 } else { 0 });
            }
        }
        assert_eq!(product.len(), n * n);
    }
}

#[test]
fn build_thread_pool_succeeds() {
    let pool = build_thread_pool(3).unwrap();
    assert_eq!(pool.current_num_threads(), 3);
}

#[test]
fn histograms_in_one_pool_agree() {
    let pool = build_thread_pool(3).unwrap();
    let page: Vec<u8> = (0..500u32).map(|i| ((i * i + 5) % 7) as u8).collect();
    let mut local = vec![0usize; 7];
    let mut shared = vec![0usize; 7];
    compute_histogram_in_pool(&pool, &page, &mut local, 7, 4);
    compute_histogram_mutex_in_pool(&pool, &page, &mut shared);
    assert_eq!(local, shared);
    assert_eq!(local.iter().sum::<usize>(), 500);
    let widened: Vec<usize> = page.iter().map(|&b| b as usize).collect();
    assert_eq!(local, histogram_seq(&widened, 7));
}

#[test]
fn merge_counts_identity_and_order() {
    let a = vec![4usize, 0, 9];
    let b = vec![1usize, 2, 3];
    let c = vec![7usize, 7, 0];
    assert_eq!(merge_counts(a.clone(), zero_counts(3), 3), a);
    assert_eq!(merge_counts(zero_counts(3), a.clone(), 3), a);
    assert_eq!(merge_counts(a.clone(), b.clone(), 3), merge_counts(b.clone(), a.clone(), 3));
    assert_eq!(
        merge_counts(merge_counts(a.clone(), b.clone(), 3), c.clone(), 3),
        merge_counts(a, merge_counts(b, c, 3), 3)
    );
}

#[test]
fn build_thread_pool_sizes() {
    assert_eq!(build_thread_pool(1).unwrap().current_num_threads(), 1);
    assert_eq!(build_thread_pool(7).unwrap().current_num_threads(), 7);
    assert!(build_thread_pool(0).unwrap().current_num_threads() >= 1);
}
