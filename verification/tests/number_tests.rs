use lib::number::{bool_number, is_nan, is_zero, neg, num_eq, num_le, num_lt, num_truthy};

fn samples() -> Vec<f64> {
    vec![
        0.0,
        -0.0,
        1.0,
        -1.0,
        0.5,
        -2.75,
        1e300,
        -1e300,
        f64::MIN_POSITIVE,
        -f64::MIN_POSITIVE,
        5e-324,
        -5e-324,
        f64::MAX,
        f64::MIN,
        f64::INFINITY,
        f64::NEG_INFINITY,
        f64::NAN,
        -f64::NAN,
        f64::from_bits(0x7ff0_0000_0000_0001),
    ]
}

#[test]
fn comparisons_agree_with_ieee() {
    for &a in &samples() {
        for &b in &samples() {
            let (x, y) = (a.to_bits(), b.to_bits());
            assert_eq!(num_eq(x, y), a == b, "{} == {}", a, b);
            assert_eq!(num_lt(x, y), a < b, "{} < {}", a, b);
            assert_eq!(num_le(x, y), a <= b, "{} <= {}", a, b);
        }
    }
}

#[test]
fn negation_flips_the_sign() {
    for &a in &samples() {
        assert_eq!(neg(a.to_bits()), (-a).to_bits());
    }
}

#[test]
fn truthiness_is_difference_from_zero() {
    for &a in &samples() {
        assert_eq!(num_truthy(a.to_bits()), a != 0.0, "{}", a);
    }
}

#[test]
fn nan_and_zero_tests() {
    assert!(is_nan(f64::NAN.to_bits()));
    assert!(!is_nan(f64::INFINITY.to_bits()));
    assert!(is_zero((-0.0f64).to_bits()));
    assert!(!is_zero(5e-324f64.to_bits()));
}

#[test]
fn comparison_results_are_one_and_zero() {
    assert_eq!(f64::from_bits(bool_number(true)), 1.0);
    assert_eq!(bool_number(false), 0.0f64.to_bits());
}
