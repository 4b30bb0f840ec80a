use charts::arith::{ceil_div_i128, floor_div_i128, gcd_u128, mul_i64};
use charts::text::{billions, integer_to_string, pixels};
use charts::Rational;

fn q(n: i64, d: i64) -> Rational {
    Rational::new(n, d).unwrap()
}

#[test]
fn rational_is_kept_in_lowest_terms() {
    assert_eq!(q(2, 4), q(1, 2));
    assert_eq!(q(2, 4).numerator(), 1);
    assert_eq!(q(2, 4).denominator(), 2);
    assert_eq!(q(3, -6), q(-1, 2));
    assert_eq!(q(0, 7), q(0, 1));
    assert_eq!(Rational::new(1, 0), None);
    assert_eq!(Rational::new(i64::MIN, 1), None);
    assert_eq!(q(i64::MIN, 2).numerator(), i64::MIN / 2);
    assert_eq!(Rational::from_integer(-4), Some(q(-4, 1)));
    assert_eq!(Rational::from_integer(i64::MIN), None);
    assert_eq!(Rational::from_i32(i32::MIN), q(i32::MIN as i64, 1));
    assert_eq!(Rational::one_half(), q(1, 2));
    assert_eq!(Rational::zero(), q(0, 1));
    assert_eq!(Rational::from_wide(1 << 100, 1 << 99), Some(q(2, 1)));
    assert_eq!(Rational::from_wide(1 << 100, 1), None);
}

#[test]
fn rational_arithmetic_is_exact() {
    assert_eq!(q(1, 3).checked_add(&q(1, 6)), Some(q(1, 2)));
    assert_eq!(q(1, 3).checked_sub(&q(1, 2)), Some(q(-1, 6)));
    assert_eq!(q(2, 3).checked_mul(&q(-9, 4)), Some(q(-3, 2)));
    assert_eq!(q(2, 3).checked_div(&q(-4, 9)), Some(q(-3, 2)));
    assert_eq!(q(2, 3).checked_div(&q(0, 1)), None);
}

#[test]
fn rational_arithmetic_reports_what_does_not_fit() {
    let big = q(i64::MAX, 1);
    assert_eq!(big.checked_add(&q(1, 1)), None);
    assert_eq!(big.checked_mul(&q(2, 1)), None);
    assert_eq!(q(-i64::MAX, 1).checked_sub(&q(1, 1)), None);
    assert_eq!(q(1, i64::MAX).checked_div(&q(2, 1)), None);
    assert_eq!(big.checked_mul(&q(1, i64::MAX)), Some(q(1, 1)));
}

#[test]
fn rational_order_is_by_value() {
    assert!(q(1, 3).less_than(&q(1, 2)));
    assert!(!q(1, 2).less_than(&q(1, 2)));
    assert!(q(1, 2).at_most(&q(1, 2)));
    assert!(q(-1, 2).less_than(&q(-1, 3)));
    assert!(q(3, 6).same_value(&q(1, 2)));
    assert!(!q(1, 3).same_value(&q(1, 2)));
}

#[test]
fn rational_floor_and_ceiling() {
    assert_eq!((q(7, 2).floor(), q(7, 2).ceil()), (3, 4));
    assert_eq!((q(-7, 2).floor(), q(-7, 2).ceil()), (-4, -3));
    assert_eq!((q(6, 2).floor(), q(6, 2).ceil()), (3, 3));
    assert_eq!((q(-6, 2).floor(), q(-6, 2).ceil()), (-3, -3));
    assert_eq!((q(0, 1).floor(), q(0, 1).ceil()), (0, 0));
}

#[test]
fn rational_decimal_text() {
    assert_eq!(q(0, 1).to_string(), "0");
    assert_eq!(q(250, 1).to_string(), "250");
    assert_eq!(q(-5, 2).to_string(), "-2.5");
    assert_eq!(q(1, 8).to_string(), "0.125");
    assert_eq!(q(3, 10).to_string(), "0.3");
    assert_eq!(q(1001, 1000).to_string(), "1.001");
    assert_eq!(q(1, 3).to_string(), "0.333333333333333333");
    assert_eq!(q(2, 3).to_string(), "0.666666666666666667");
    assert_eq!(q(500, 3).to_decimal(6), "166.666667");
    assert_eq!(q(1, 3).to_decimal(0), "0");
    assert_eq!(q(1, 2).to_decimal(0), "1");
    assert_eq!(q(-1, 2).to_decimal(0), "-1");
    assert_eq!(q(-1, 3).to_decimal(0), "0");
    assert_eq!(q(-1, 3).to_decimal(2), "-0.33");
    assert_eq!(q(1995, 1000).to_decimal(2), "2");
    assert_eq!(q(10203, 10000).to_decimal(3), "1.02");
    assert_eq!(q(i64::MAX, 1).to_string(), "9223372036854775807");
    assert_eq!(q(1, i64::MAX).to_string(), "0");
}

#[test]
fn integer_helpers() {
    assert_eq!(gcd_u128(12, 18), 6);
    assert_eq!(gcd_u128(0, 5), 5);
    assert_eq!(gcd_u128(5, 0), 5);
    assert_eq!(gcd_u128(0, 0), 0);
    assert_eq!(mul_i64(i64::MIN, i64::MIN), 1i128 << 126);
    assert_eq!(mul_i64(-3, 4), -12);
    assert_eq!((floor_div_i128(7, 2), ceil_div_i128(7, 2)), (3, 4));
    assert_eq!((floor_div_i128(-7, 2), ceil_div_i128(-7, 2)), (-4, -3));
    assert_eq!((floor_div_i128(-8, 2), ceil_div_i128(-8, 2)), (-4, -4));
}

#[test]
fn texts() {
    assert_eq!(integer_to_string(0), "0");
    assert_eq!(integer_to_string(-90), "-90");
    assert_eq!(integer_to_string(1234567890), "1234567890");
    assert_eq!(integer_to_string(i128::MIN), i128::MIN.to_string());
    assert_eq!(integer_to_string(i128::MAX), i128::MAX.to_string());
    assert_eq!(pixels(12), "12px");
    assert_eq!(pixels(0), "0px");
    assert_eq!(billions("1.2G"), "1.2B");
    assert_eq!(billions("GG €G"), "BB €B");
    assert_eq!(billions("42k"), "42k");
    assert_eq!(billions(""), "");
}
