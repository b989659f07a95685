use tls_bench::text::parse_dec_range;
use tls_bench::text::parse_summary;
use tls_bench::text::render_fixed2;
use tls_bench::text::render_progress;
use tls_bench::text::render_ratio2;
use tls_bench::text::render_summary;
use tls_bench::text::u128_to_dec;

#[test]
fn test_decimal_render() {
    assert_eq!(u128_to_dec(0), b"0".to_vec());
    assert_eq!(u128_to_dec(7), b"7".to_vec());
    assert_eq!(u128_to_dec(12345), b"12345".to_vec());
    assert_eq!(u128_to_dec(u128::MAX), format!("{}", u128::MAX).into_bytes());
}

#[test]
fn test_decimal_parse() {
    assert_eq!(parse_dec_range(b"12345", 0, 5), Some(12345));
    assert_eq!(parse_dec_range(b"x123y", 1, 4), Some(123));
    assert_eq!(parse_dec_range(b"12a45", 0, 5), None);
    assert_eq!(parse_dec_range(b"", 0, 0), None);
    // One above u128::MAX does not fit.
    assert_eq!(
        parse_dec_range(b"340282366920938463463374607431768211456", 0, 39),
        None
    );
}

#[test]
fn test_decimal_round_trip() {
    for n in [0u128, 1, 9, 10, 99, 1000, 123_456_789, u128::MAX] {
        let bytes = u128_to_dec(n);
        assert_eq!(parse_dec_range(&bytes, 0, bytes.len()), Some(n));
    }
}

#[test]
fn test_fixed2_rendering() {
    assert_eq!(render_fixed2(2_340), b"2.34".to_vec());
    assert_eq!(render_fixed2(0), b"0.00".to_vec());
    assert_eq!(render_fixed2(999), b"0.99".to_vec());
    assert_eq!(render_fixed2(-500), b"-0.50".to_vec());
    assert_eq!(render_fixed2(60_005), b"60.00".to_vec());
}

#[test]
fn test_ratio2_rendering() {
    assert_eq!(render_ratio2(200, 4), b"50.00".to_vec());
    assert_eq!(render_ratio2(100, 3), b"33.33".to_vec());
    assert_eq!(render_ratio2(0, 1), b"0.00".to_vec());
    assert_eq!(render_ratio2(100, 1), b"100.00".to_vec());
}

#[test]
fn test_summary_text() {
    let line = render_summary(3, 1, 2, 2_340, 300, 4);
    assert_eq!(
        line,
        b"TLS handshakes: 3 | errors: 1 | throughput 2 h/s | duration 2.34s | success ratio 75.00%"
            .to_vec()
    );
}

#[test]
fn test_progress_text() {
    let line = render_progress(12, 0, 120, 1_000);
    assert_eq!(
        line,
        b"TLS handshakes: 12 | errors: 0 | throughput 120 h/s | duration 1.00s".to_vec()
    );
}

#[test]
fn test_summary_round_trip() {
    let line = render_summary(1234, 56, 789, 42_815, 123_400, 1_290);
    assert_eq!(parse_summary(&line), Some((1234, 56, 789)));
}

#[test]
fn test_summary_round_trip_zeroes() {
    let line = render_summary(0, 0, 0, 0, 0, 1);
    assert_eq!(parse_summary(&line), Some((0, 0, 0)));
}

#[test]
fn test_parse_summary_rejects_other_text() {
    assert_eq!(parse_summary(b"TLS handshakes: x | errors: 1"), None);
    assert_eq!(parse_summary(b"nonsense"), None);
    assert_eq!(parse_summary(b""), None);
}
