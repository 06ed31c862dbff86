use jolt_gbdt::field::Scalar;

#[test]
fn field_arithmetic_small_values() {
    let a = Scalar::from_u64(7);
    let b = Scalar::from_u64(5);
    assert_eq!(a.plus(&b), Scalar::from_u64(12));
    assert_eq!(a.minus(&b), Scalar::from_u64(2));
    assert_eq!(a.times(&b), Scalar::from_u64(35));
    assert!(Scalar::zero().is_zero());
    assert!(!Scalar::one().is_zero());
}

#[test]
fn field_arithmetic_wraps_at_the_modulus() {
    let minus_one = Scalar::zero().minus(&Scalar::one());
    assert!(!minus_one.is_zero());
    assert!(minus_one.plus(&Scalar::one()).is_zero());
    assert_eq!(minus_one.times(&minus_one), Scalar::one());
    let b = Scalar::from_u64(5);
    assert_eq!(Scalar::from_u64(3).minus(&b).plus(&b), Scalar::from_u64(3));
    assert_eq!(
        Scalar::from_u64(u64::MAX).times(&Scalar::from_u64(u64::MAX)).is_zero(),
        false
    );
}
