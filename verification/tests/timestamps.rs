use capreport::timefmt::decimal_digits;
use capreport::timefmt::format_timestamp;

#[test]
fn microsecond_rendering() {
    assert_eq!(format_timestamp(1, 500000, 1_000_000), "1.500000");
    assert_eq!(format_timestamp(0, 0, 1_000_000), "0.000000");
    assert_eq!(format_timestamp(12, 345678, 1_000_000), "12.345678");
}

#[test]
fn nanosecond_rendering_pads_to_nine_digits() {
    assert_eq!(format_timestamp(5, 7, 1_000_000_000), "5.000000007");
}

#[test]
fn negative_seconds_clamp_to_zero() {
    assert_eq!(format_timestamp(-1, 999, 1_000_000), "0.000000");
    assert_eq!(format_timestamp(i64::MIN, 0, 1_000_000_000), "0.000000");
}

#[test]
fn resolution_one_renders_bare_fraction() {
    assert_eq!(format_timestamp(7, 0, 1), "7.0");
}

#[test]
fn non_power_of_ten_resolution_renders_six_digits() {
    assert_eq!(format_timestamp(1, 7, 65536), "1.000107");
    let expected = format!("{:.6}", 1f64 + 7f64 / 65536f64);
    assert_eq!(format_timestamp(1, 7, 65536), expected);
}

#[test]
fn float_rendering_matches_binary_fractions() {
    // Fractions over a power of two are exactly representable, so the
    // rational rendering must agree with floating-point formatting.
    for (secs, frac, res) in [
        (0i64, 1u64, 2u64),
        (3, 3, 4),
        (10, 11, 16),
        (100, 12345, 65536),
        (7, 999, 1024),
        (2, 5, 8),
    ] {
        let expected = format!("{:.6}", secs as f64 + frac as f64 / res as f64);
        assert_eq!(format_timestamp(secs, frac, res), expected, "{}+{}/{}", secs, frac, res);
    }
}

#[test]
fn tie_rounds_to_even() {
    // 1/128 second is exactly 0.0078125: the six-digit rendering ties and
    // resolves to the even neighbor.
    assert_eq!(format_timestamp(0, 1, 128), "0.007812");
    // 3/128 = 0.0234375 ties toward the odd neighbor's even side: 0.023438.
    assert_eq!(format_timestamp(0, 3, 128), "0.023438");
}

#[test]
fn decimal_digit_counting() {
    assert_eq!(decimal_digits(1), Some(0));
    assert_eq!(decimal_digits(10), Some(1));
    assert_eq!(decimal_digits(1_000_000), Some(6));
    assert_eq!(decimal_digits(1_000_000_000), Some(9));
    assert_eq!(decimal_digits(0), None);
    assert_eq!(decimal_digits(65536), None);
    assert_eq!(decimal_digits(3_000_000), None);
}
