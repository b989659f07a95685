use tls_bench::math::avg;
use tls_bench::math::percentile;
use tls_bench::math::Ratio;

fn ratio_f32(r: Ratio) -> f32 {
    r.num as f32 / r.den as f32
}

fn pct_f64(scaled: u128) -> f64 {
    scaled as f64 / 1000.0
}

#[test]
fn test_avg() {
    assert_eq!(ratio_f32(avg(&vec![2, 1])), 1.5);
    assert_eq!(ratio_f32(avg(&vec![1])), 1.0);
    assert_eq!(ratio_f32(avg(&vec![])), 0.0);
    assert_eq!(ratio_f32(avg(&vec![1, 4, 5, 10, 100])), 24.0);
}

#[test]
fn test_percentile() {
    assert_eq!(pct_f64(percentile(&mut vec![2, 1], 500)), 1.5);
    assert_eq!(pct_f64(percentile(&mut vec![1], 400)), 1.);
    assert_eq!(pct_f64(percentile(&mut vec![1, 4, 5, 10, 99], 1000)), 99.);
    assert!((pct_f64(percentile(&mut vec![1, 4, 5, 10, 99], 950)) - 81.19999999999999).abs() < 1e-9);
    assert!((pct_f64(percentile(&mut vec![1, 4, 99, 5, 10], 950)) - 81.19999999999999).abs() < 1e-9);

    let mut data = vec![
        33, 33, 33, 33, 34, 34, 34, 34, 34, 34, 34, 34, 34, 34, 34, 35, 35, 35, 35, 35, 36, 37,
        37, 38, 39, 40, 43, 47, 48, 48, 49, 54, 54, 54, 54, 54, 54,
    ];
    assert_eq!(pct_f64(percentile(&mut data, 500)), 35.);
}

#[test]
fn test_avg_exact_rational() {
    let r = avg(&vec![2, 1]);
    assert_eq!(r.num, 3);
    assert_eq!(r.den, 2);
    let empty = avg(&vec![]);
    assert_eq!(empty.num, 0);
    assert_eq!(empty.den, 1);
}

#[test]
fn test_percentile_exact_scaled() {
    // 95th percentile of [1, 4, 5, 10, 99]: rank 3.8, so 10 * 0.2 + 99 * 0.8.
    assert_eq!(percentile(&mut vec![1, 4, 5, 10, 99], 950), 81_200);
    // Median of an even-length vector interpolates halfway.
    assert_eq!(percentile(&mut vec![2, 1], 500), 1_500);
}

#[test]
fn test_percentile_sorts_in_place() {
    let mut data = vec![9, 3, 7, 1];
    percentile(&mut data, 500);
    assert_eq!(data, vec![1, 3, 7, 9]);
}

#[test]
fn test_percentile_within_min_max() {
    let samples = vec![12, 7, 99, 3, 41];
    for p in [1u64, 100, 250, 500, 900, 950, 999, 1000] {
        let r = percentile(&mut samples.clone(), p);
        assert!(3_000 <= r && r <= 99_000);
    }
}

#[test]
fn test_percentile_permutation_invariant() {
    let a = vec![5, 1, 9, 9, 2, 8];
    let b = vec![9, 8, 9, 5, 2, 1];
    for p in [100u64, 330, 500, 750, 999, 1000] {
        assert_eq!(
            percentile(&mut a.clone(), p),
            percentile(&mut b.clone(), p)
        );
    }
}

#[test]
fn test_percentile_single_sample() {
    for p in [1u64, 400, 500, 999, 1000] {
        assert_eq!(percentile(&mut vec![7], p), 7_000);
    }
}

#[test]
fn test_percentile_100_never_interpolates() {
    assert_eq!(percentile(&mut vec![1, 4, 5, 10, 99], 1000), 99_000);
    assert_eq!(percentile(&mut vec![3, 2], 1000), 3_000);
    // Just below 100 the result interpolates; at 100 it is the maximum exactly.
    assert_eq!(percentile(&mut vec![0, 1000], 999), 999_000);
}

#[test]
fn test_percentile_median_odd() {
    assert_eq!(percentile(&mut vec![5, 1, 3], 500), 3_000);
}
