use bgp::time::ts_to_micros;

fn check(seconds: f64) {
    let expected = (seconds * 1_000_000.0).round() as i64;
    assert_eq!(ts_to_micros(seconds.to_bits()), expected, "{seconds:?}");
}

#[test]
fn whole_seconds() {
    assert_eq!(ts_to_micros(1_751_155_200f64.to_bits()), 1_751_155_200_000_000);
    for s in [0u32, 1, 59, 1_000_000_007, u32::MAX] {
        check(f64::from(s));
        assert_eq!(ts_to_micros(f64::from(s).to_bits()), i64::from(s) * 1_000_000);
    }
}

#[test]
fn fractions() {
    assert_eq!(ts_to_micros(1.5f64.to_bits()), 1_500_000);
    for us in [0u32, 1, 2, 3, 499_999, 500_000, 999_999, 123_456, 7, 1_000_000, u32::MAX] {
        for t in [0u32, 1, 1_700_000_001, 3_999_999_999, u32::MAX] {
            check(f64::from(t) + f64::from(us) / 1_000_000.0);
        }
    }
}

#[test]
fn halves_and_signs() {
    check(0.000_000_5);
    check(-0.000_000_5);
    check(0.000_001_5);
    check(-1.25);
    check(-0.0);
    check(0.499_999_999_999_999_94e-6);
}

#[test]
fn extremes() {
    check(f64::NAN);
    check(f64::INFINITY);
    check(f64::NEG_INFINITY);
    check(f64::MAX);
    check(f64::MIN);
    check(f64::MIN_POSITIVE);
    check(f64::from_bits(1));
    check(9_223_372_036_854.775);
    check(9_223_372_036_855.0);
    check(-9_223_372_036_854.775);
    check(-9_223_372_036_855.0);
    check(1e300);
}

#[test]
fn many_bit_patterns() {
    let mut x: u64 = 0x9e37_79b9_7f4a_7c15;
    for _ in 0..200_000 {
        x ^= x << 13;
        x ^= x >> 7;
        x ^= x << 17;
        check(f64::from_bits(x));
        // Around plausible times as well.
        check((x >> 11) as f64 / 1_048_576.0);
    }
}
