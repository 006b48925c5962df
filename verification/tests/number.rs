use aprn::number::{
    abs, at_most, is_negligible, less_than, nan, negate, zero, EPSILON, INFINITY, SIGN,
};

fn samples() -> Vec<f64> {
    vec![
        0.0,
        -0.0,
        1.0,
        -1.0,
        0.5,
        -0.5,
        2.0,
        1e300,
        -1e300,
        f64::MIN_POSITIVE,
        -f64::MIN_POSITIVE,
        5e-324,
        -5e-324,
        f64::MAX,
        f64::MIN,
        f64::EPSILON,
        -f64::EPSILON,
        f64::INFINITY,
        f64::NEG_INFINITY,
        f64::NAN,
        -f64::NAN,
        f64::from_bits(0x7ff0_0000_0000_0001),
        f64::from_bits(0xfff8_0000_0000_0001),
        3.14,
        -2.71,
    ]
}

#[test]
fn constants() {
    assert_eq!(SIGN, (-0.0f64).to_bits());
    assert_eq!(INFINITY, f64::INFINITY.to_bits());
    assert_eq!(EPSILON, f64::EPSILON.to_bits());
}

#[test]
fn order_agrees_with_doubles() {
    for a in samples() {
        for b in samples() {
            assert_eq!(less_than(a.to_bits(), b.to_bits()), a < b, "{} < {}", a, b);
            assert_eq!(at_most(a.to_bits(), b.to_bits()), a <= b, "{} <= {}", a, b);
        }
    }
}

#[test]
fn sign_operations_agree_with_doubles() {
    for a in samples() {
        assert_eq!(negate(a.to_bits()), (-a).to_bits(), "-{}", a);
        assert_eq!(abs(a.to_bits()), a.abs().to_bits(), "|{}|", a);
        assert_eq!(nan(a.to_bits()), a.is_nan(), "nan {}", a);
        assert_eq!(zero(a.to_bits()), a == 0.0, "zero {}", a);
        assert_eq!(is_negligible(a.to_bits()), a.abs() < f64::EPSILON, "negligible {}", a);
    }
}
