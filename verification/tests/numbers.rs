//! The sign, order and equality of numbers, held against the floating point
//! of the machine that runs the test.

use js_engine::number::{
    number_equal, number_is_nan, number_is_zero, number_less, number_less_equal, number_magnitude,
    number_negate, INFINITY, SIGN,
};

fn samples() -> Vec<f64> {
    vec![
        0.0,
        -0.0,
        1.0,
        -1.0,
        0.5,
        -0.5,
        2.0,
        1e308,
        -1e308,
        f64::MAX,
        f64::MIN,
        f64::MIN_POSITIVE,
        -f64::MIN_POSITIVE,
        f64::from_bits(1),
        -f64::from_bits(1),
        f64::EPSILON,
        1.0 + f64::EPSILON,
        f64::INFINITY,
        f64::NEG_INFINITY,
        f64::NAN,
        -f64::NAN,
        f64::from_bits(0x7FF0_0000_0000_0001),
        f64::from_bits(0xFFFF_FFFF_FFFF_FFFF),
        3.141592653589793,
        -2.718281828459045,
    ]
}

#[test]
fn constants_are_the_encodings_they_name() {
    assert_eq!(INFINITY, f64::INFINITY.to_bits());
    assert_eq!(SIGN, (-0.0f64).to_bits());
}

#[test]
fn not_a_number_is_told_apart() {
    for x in samples() {
        assert_eq!(number_is_nan(x.to_bits()), x.is_nan(), "{:?}", x);
    }
}

#[test]
fn zero_is_told_apart() {
    for x in samples() {
        assert_eq!(number_is_zero(x.to_bits()), x == 0.0, "{:?}", x);
    }
}

#[test]
fn magnitude_is_the_absolute_value() {
    for x in samples() {
        assert_eq!(number_magnitude(x.to_bits()), x.abs().to_bits(), "{:?}", x);
    }
}

#[test]
fn negation_flips_the_sign() {
    for x in samples() {
        assert_eq!(number_negate(x.to_bits()), (-x).to_bits(), "{:?}", x);
    }
    assert_eq!(number_negate(0), SIGN);
    assert_eq!(number_negate(SIGN), 0);
}

#[test]
fn equality_is_that_of_floating_point() {
    for x in samples() {
        for y in samples() {
            assert_eq!(number_equal(x.to_bits(), y.to_bits()), x == y, "{:?} == {:?}", x, y);
        }
    }
}

#[test]
fn order_is_that_of_floating_point() {
    for x in samples() {
        for y in samples() {
            assert_eq!(number_less(x.to_bits(), y.to_bits()), x < y, "{:?} < {:?}", x, y);
            assert_eq!(number_less_equal(x.to_bits(), y.to_bits()), x <= y, "{:?} <= {:?}", x, y);
        }
    }
}
