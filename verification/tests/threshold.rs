use startup_millenium::threshold::{read_rate_below, DEFAULT_IDLE_READ_THRESHOLD_BITS, POSITIVE_INFINITY_BITS};

#[test]
fn test_rate_against_default_threshold() {
    let ten = DEFAULT_IDLE_READ_THRESHOLD_BITS;
    // 10 MB in one second is exactly the threshold, not below it.
    assert!(!read_rate_below(10_000_000, 1_000_000, ten));
    assert!(read_rate_below(9_999_999, 1_000_000, ten));
    // 20 MB over two seconds is 10 MB/s again.
    assert!(!read_rate_below(20_000_000, 2_000_000, ten));
    assert!(read_rate_below(19_999_999, 2_000_000, ten));
    assert!(read_rate_below(0, 1, ten));
}

#[test]
fn test_zero_elapsed_is_never_below() {
    assert!(!read_rate_below(0, 0, DEFAULT_IDLE_READ_THRESHOLD_BITS));
    assert!(!read_rate_below(0, 0, POSITIVE_INFINITY_BITS));
}

#[test]
fn test_special_thresholds() {
    assert!(read_rate_below(u64::MAX, 1, POSITIVE_INFINITY_BITS));
    for bits in [0.0f64.to_bits(), (-0.0f64).to_bits(), (-5.0f64).to_bits(), f64::NAN.to_bits()] {
        assert!(!read_rate_below(0, 1_000_000, bits));
    }
    // A huge threshold accepts any rate; a tiny one only no reads at all.
    assert!(read_rate_below(u64::MAX, 1, 1e300f64.to_bits()));
    assert!(read_rate_below(0, 1, 5e-324f64.to_bits()));
    assert!(!read_rate_below(1, u64::MAX, 5e-324f64.to_bits()));
}

#[test]
fn test_fractional_threshold() {
    // 0.5 MB/s: 500 kB in one second is the threshold itself.
    let half = 0.5f64.to_bits();
    assert!(!read_rate_below(500_000, 1_000_000, half));
    assert!(read_rate_below(499_999, 1_000_000, half));
    // 2.5 MB/s over 3 seconds is 7.5 MB.
    let two_and_half = 2.5f64.to_bits();
    assert!(read_rate_below(7_499_999, 3_000_000, two_and_half));
    assert!(!read_rate_below(7_500_000, 3_000_000, two_and_half));
}

#[test]
fn test_raising_threshold_accepts_more() {
    let (delta, elapsed) = (15_000_000u64, 1_000_000u64);
    assert!(!read_rate_below(delta, elapsed, 10.0f64.to_bits()));
    assert!(read_rate_below(delta, elapsed, 20.0f64.to_bits()));
}

#[test]
fn test_agrees_with_float_comparison_away_from_ties() {
    let thresholds = [0.001, 0.5, 1.0, 3.3, 10.0, 123.456, 5000.0];
    let samples = [(0u64, 2_000_000u64), (1, 1), (1_234_567, 2_000_000), (25_000_000, 2_000_000), (7, 3)];
    for &t in thresholds.iter() {
        for &(delta, elapsed) in samples.iter() {
            let rate = delta as f64 / (elapsed as f64 / 1_000_000.0);
            let limit = t * 1_000_000.0;
            if (rate - limit).abs() > 1e-6 * limit {
                assert_eq!(read_rate_below(delta, elapsed, f64::to_bits(t)), rate < limit, "{delta} {elapsed} {t}");
            }
        }
    }
}
