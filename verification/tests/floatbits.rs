use fleet::floatbits::{f32_is_nan, f32_order_key, f64_gt, f64_is_nan, f64_order_key};

fn f64_samples() -> Vec<f64> {
    vec![
        0.0, -0.0, 1.0, -1.0, 40.0, 40.000000001, 39.99, 1e300, -1e300, f64::INFINITY,
        f64::NEG_INFINITY, f64::NAN, -f64::NAN, f64::MIN_POSITIVE, 5e-324, -5e-324, 50.0,
    ]
}

#[test]
fn f64_greater_matches_float_comparison() {
    for &a in &f64_samples() {
        for &b in &f64_samples() {
            assert_eq!(f64_gt(a.to_bits(), b.to_bits()), a > b, "{a} > {b}");
        }
        assert_eq!(f64_is_nan(a.to_bits()), a.is_nan());
    }
}

#[test]
fn order_keys_follow_value_order() {
    let fs: Vec<f32> = vec![f32::NEG_INFINITY, f32::MIN, -1.0, -1e-30, -0.0, 0.0, 1e-30, 0.05, 0.5, 1.0, f32::MAX, f32::INFINITY];
    for w in fs.windows(2) {
        assert!(f32_order_key(w[0].to_bits()) < f32_order_key(w[1].to_bits()));
    }
    let ds: Vec<f64> = vec![f64::NEG_INFINITY, -2.0, -0.0, 0.0, 3.0, f64::INFINITY];
    for w in ds.windows(2) {
        assert!(f64_order_key(w[0].to_bits()) < f64_order_key(w[1].to_bits()));
    }
    assert!(f32_is_nan(f32::NAN.to_bits()));
    assert!(!f32_is_nan(f32::INFINITY.to_bits()));
}
