use rustquit::double::Double;

fn double(value: f64) -> Double {
    Double { bits: value.to_bits() }
}

fn values() -> Vec<f64> {
    vec![
        0.0, -0.0, 1e-320, -1e-320, 0.05, 0.5, 1.0, -1.0, 2.0, 9.999, 10.0, 60.0, 1e300, -1e300,
        f64::MIN_POSITIVE, f64::MAX, f64::INFINITY, f64::NEG_INFINITY, f64::NAN, -f64::NAN,
    ]
}

#[test]
fn tests_agree_with_floating_point() {
    for value in values() {
        assert_eq!(double(value).is_finite(), value.is_finite(), "{value}");
        assert_eq!(double(value).is_positive(), value > 0.0, "{value}");
    }
}

#[test]
fn clamping_and_maximum_agree_with_floating_point() {
    for value in values() {
        let expected: f64 = if value.is_finite() { value } else { 2.0 };
        let clamped = double(value).normalize(double(2.0), double(0.05), double(10.0));
        assert_eq!(f64::from_bits(clamped.bits), expected.clamp(0.05, 10.0));
        let most = double(value).max_with(double(0.05));
        assert_eq!(f64::from_bits(most.bits), value.max(0.05), "{value}");
    }
}
