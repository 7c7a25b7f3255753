use music21_rs::fraction_pow::{Fraction, Sign};

#[test]
fn test_pow_unsigned() {
    let frac = Fraction::new(2, 3);
    assert_eq!(frac.pow(0), Fraction::new(1, 1));
    assert_eq!(frac.pow(1), Fraction::new(2, 3));
    assert_eq!(frac.pow(3), Fraction::new(8, 27));
    assert_eq!(frac.pow(4), Fraction::new(16, 81));
}

#[test]
fn test_pow_signed() {
    let frac = Fraction::new(3, 4);
    assert_eq!(frac.powi(0), Fraction::new(1, 1));
    assert_eq!(frac.powi(2), Fraction::new(9, 16));
    assert_eq!(frac.powi(-2), Fraction::new(16, 9));
}

#[test]
fn test_nan_behavior() {
    let nan_frac = Fraction::NaN;
    assert!(matches!(nan_frac.pow(5), Fraction::NaN));
    assert!(matches!(nan_frac.powi(3), Fraction::NaN));
}

#[test]
fn test_infinity_behavior() {
    let pos_inf = Fraction::Infinity(Sign::Plus);
    let neg_inf = Fraction::Infinity(Sign::Minus);

    // For pow and powi, Infinity returns Infinity with the same sign.
    assert_eq!(pos_inf.pow(3), pos_inf);
    assert_eq!(pos_inf.powi(-2), pos_inf);
    assert_eq!(neg_inf.pow(2), neg_inf);
    assert_eq!(neg_inf.powi(-3), neg_inf);
}

#[test]
fn test_method_pow_positive_exponent() {
    let frac = Fraction::new(2, 3);
    let result = frac.pow(3);
    let expected = Fraction::new(8, 27);
    assert_eq!(result, expected, "2/3 raised to the power of 3 should be 8/27");
}

#[test]
fn test_method_pow_negative_exponent() {
    let frac = Fraction::new(2, 3);
    let result = frac.powi(-2);
    let expected = Fraction::new(9, 4);
    assert_eq!(result, expected, "2/3 raised to the power of -2 should be 9/4");
}

#[test]
fn test_method_pow_zero_exponent() {
    let frac = Fraction::new(2, 3);
    let result = frac.pow(0);
    let expected = Fraction::one();
    assert_eq!(result, expected, "Any fraction raised to the power of 0 should be 1/1");
}

#[test]
fn test_method_pow_one_exponent() {
    let frac = Fraction::new(5, 7);
    let result = frac.pow(1);
    // Should return itself.
    assert_eq!(result, frac, "Any fraction raised to the power of 1 should be itself");
}

#[test]
fn test_method_pow_negative_one_exponent() {
    let frac = Fraction::new(4, 5);
    let result = frac.powi(-1);
    let expected = Fraction::new(5, 4);
    assert_eq!(result, expected, "4/5 raised to the power of -1 should be 5/4");
}

#[test]
fn test_method_pow_large_exponent() {
    let frac = Fraction::new(2, 3);
    let result = frac.pow(10);
    let expected = Fraction::new(1024, 59049);
    assert_eq!(result, expected, "2/3 raised to the power of 10 should be 1024/59049");
}

#[test]
fn test_method_pow_negative_large_exponent() {
    let frac = Fraction::new(2, 3);
    let result = frac.powi(-3);
    let expected = Fraction::new(27, 8);
    assert_eq!(result, expected, "2/3 raised to the power of -3 should be 27/8");
}

#[test]
fn test_zero_numerator_positive_exponent() {
    let frac = Fraction::new(0, 5);
    let result = frac.pow(3);
    let expected = Fraction::new(0, 1);
    assert_eq!(result, expected, "0/5 raised to the power of 3 should be 0/1");
}

#[test]
fn test_zero_numerator_negative_exponent() {
    let frac = Fraction::new(0, 5);
    let result = frac.powi(-2);
    // Dividing by zero in the reciprocal should result in Infinity.
    let expected = Fraction::Infinity(Sign::Plus);
    assert_eq!(result, expected, "0/5 raised to the power of -2 should be Infinity(Plus)");
}

#[test]
fn test_underlying_type_i64() {
    let frac = Fraction::new(2, 3);
    let result = frac.powi(3);
    let expected = Fraction::new(8, 27);
    assert_eq!(result, expected, "2/3 raised to the power of 3 should be 8/27");
}

#[test]
fn fractions_come_in_lowest_terms() {
    assert_eq!(Fraction::new(6, 4), Fraction::Rational(Sign::Plus, 3, 2));
    assert_eq!(Fraction::new(0, 9), Fraction::Rational(Sign::Plus, 0, 1));
    assert_eq!(Fraction::new(7, 7), Fraction::Rational(Sign::Plus, 1, 1));
    assert_eq!(Fraction::new(0, 0), Fraction::NaN);
    assert_eq!(Fraction::new(3, 0), Fraction::Infinity(Sign::Plus));
    let f = Fraction::new(10, 4);
    assert_eq!((f.numer(), f.denom(), f.sign()), (Some(5), Some(2), Some(Sign::Plus)));
    assert_eq!(Fraction::NaN.numer(), None);
    assert_eq!(Fraction::Infinity(Sign::Minus).sign(), Some(Sign::Minus));
}

#[test]
fn products_keep_their_sign_and_lowest_terms() {
    let a = Fraction::Rational(Sign::Minus, 3, 4);
    let b = Fraction::new(2, 9);
    assert_eq!(a.checked_mul(&b), Some(Fraction::Rational(Sign::Minus, 1, 6)));
    assert_eq!(a.checked_mul(&a), Some(Fraction::Rational(Sign::Plus, 9, 16)));
    assert_eq!(a.pow(3), Fraction::Rational(Sign::Minus, 27, 64));
    assert_eq!(a.pow(2), Fraction::Rational(Sign::Plus, 9, 16));
    assert_eq!(a.powi(-1), Fraction::Rational(Sign::Plus, 4, 3));
    let zero = Fraction::Rational(Sign::Minus, 0, 1);
    assert_eq!(zero.checked_mul(&a), Some(Fraction::Rational(Sign::Plus, 0, 1)));
    let big = Fraction::new(i64::MAX, 1);
    assert_eq!(big.checked_mul(&Fraction::new(2, 1)), None);
    assert_eq!(big.checked_mul(&Fraction::new(1, 2)), Some(Fraction::Rational(Sign::Plus, i64::MAX, 2)));
    assert_eq!(Fraction::new(3, 2).pow(36), Fraction::Rational(Sign::Plus, 150094635296999121, 68719476736));
}
