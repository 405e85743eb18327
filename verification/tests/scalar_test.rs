use proof_of_sql::scalar::{Scalar, MODULUS_HI, MODULUS_LO};

#[test]
fn negative_integers_wrap_around_the_modulus() {
    assert_eq!(Scalar::from_i128(-1).to_limbs(), (MODULUS_LO - 1, MODULUS_HI));
    assert_eq!(Scalar::from_limbs(MODULUS_LO, MODULUS_HI), Scalar::zero());
    assert_eq!(Scalar::from_limbs(MODULUS_LO + 5, MODULUS_HI), Scalar::from_i128(5));
    assert_eq!(Scalar::from_i128(i128::MIN).plus(&Scalar::from_i128(i128::MAX)), Scalar::from_i128(-1));
    assert!(Scalar::from_i128(-5).is_negative());
    assert!(!Scalar::from_i128(5).is_negative());
    assert!(!Scalar::from_i128(i128::MAX).is_negative());
    assert!(Scalar::from_i128(i128::MIN).is_negative());
    assert!(!Scalar::from_i128(i64::MAX as i128).is_negative());
}

#[test]
fn field_operations() {
    let a = Scalar::from_i128(1 << 40);
    let b = Scalar::from_i128(-(1 << 30));
    assert_eq!(a.plus(&b), Scalar::from_i128((1 << 40) - (1 << 30)));
    assert_eq!(a.minus(&b), Scalar::from_i128((1 << 40) + (1 << 30)));
    assert_eq!(a.times(&b), Scalar::from_i128(-(1 << 70)));
    assert_eq!(b.neg(), Scalar::from_i128(1 << 30));
    assert_eq!(Scalar::pow10(3), Scalar::from_i128(1000));
    assert_eq!(Scalar::from_i128(3).pow(4), Scalar::from_i128(81));
    assert_eq!(Scalar::from_i128(7).inverse().times(&Scalar::from_i128(7)), Scalar::one());
    assert!(Scalar::from_bool(true).equals(&Scalar::one()));
}

#[test]
fn products_beyond_128_bits_stay_exact() {
    let big = Scalar::from_i128(i128::MAX);
    let square = big.times(&big);
    // (2^127 - 1)^2 = 2^254 - 2^128 + 1, reduced below the modulus.
    assert_eq!(square.minus(&Scalar::one()).plus(&Scalar::from_limbs(0, 1)), Scalar::from_limbs(0, 1 << 126));
    let two_128 = Scalar::from_limbs(0, 1);
    assert_eq!(two_128.to_limbs(), (0, 1));
    assert_eq!(Scalar::from_i128(i128::MAX).inverse().times(&big), Scalar::one());
    assert_eq!(Scalar::from_i128(-3).inverse().times(&Scalar::from_i128(-3)), Scalar::one());
}
