use anyswap::math::i256::I256;
use primitive_types::U256;

#[test]
fn test_add_positive() {
    let a = I256::try_from(U256::from(100u64)).unwrap();
    let b = I256::try_from(U256::from(200u64)).unwrap();
    let result = a + b;
    assert_eq!(result.value, U256::from(300u64));
}

#[test]
fn test_add_negative() {
    let a = I256::try_from(-100i128).unwrap();
    let b = I256::try_from(-200i128).unwrap();
    let result = a + b;
    assert!(result.is_negative());
}

#[test]
fn test_add_mixed() {
    let a = I256::try_from(U256::from(100u64)).unwrap();
    let b = I256::try_from(-50i128).unwrap();
    let result = a + b;
    assert_eq!(result.value, U256::from(50u64));
}

#[test]
fn test_sub_positive() {
    let a = I256::try_from(U256::from(200u64)).unwrap();
    let b = I256::try_from(U256::from(100u64)).unwrap();
    let result = a - b;
    assert_eq!(result.value, U256::from(100u64));
}

#[test]
fn test_sub_negative() {
    let a = I256::try_from(-100i128).unwrap();
    let b = I256::try_from(-200i128).unwrap();
    let result = a - b;
    assert_eq!(result.value, U256::from(100u64));
}

#[test]
fn test_sub_mixed() {
    let a = I256::try_from(U256::from(100u64)).unwrap();
    let b = I256::try_from(-50i128).unwrap();
    let result = a - b;
    assert_eq!(result.value, U256::from(150u64));
}

#[test]
fn test_mul_positive() {
    let a = I256::try_from(U256::from(10u64)).unwrap();
    let b = I256::try_from(U256::from(20u64)).unwrap();
    let result = a * b;
    assert_eq!(result.value, U256::from(200u64));
}

#[test]
fn test_mul_negative() {
    let a = I256::try_from(-10i128).unwrap();
    let b = I256::try_from(-20i128).unwrap();
    let result = a * b;
    assert_eq!(result.value, U256::from(200u64));
}

#[test]
fn test_mul_mixed() {
    let a = I256::try_from(U256::from(10u64)).unwrap();
    let b = I256::try_from(-20i128).unwrap();
    let result = a * b;
    assert!(result.is_negative());
    assert_eq!(result.abs().unwrap(), U256::from(200u64));
}

#[test]
fn test_div_positive() {
    let a = I256::try_from(U256::from(200u64)).unwrap();
    let b = I256::try_from(U256::from(10u64)).unwrap();
    let result = a / b;
    assert_eq!(result.value, U256::from(20u64));
}

#[test]
fn test_div_negative() {
    let a = I256::try_from(-200i128).unwrap();
    let b = I256::try_from(-10i128).unwrap();
    let result = a / b;
    assert_eq!(result.value, U256::from(20u64));
}

#[test]
fn test_div_mixed() {
    let a = I256::try_from(U256::from(200u64)).unwrap();
    let b = I256::try_from(-10i128).unwrap();
    let result = a / b;
    assert!(result.is_negative());
    assert_eq!(result.abs().unwrap(), U256::from(20u64));
}

#[test]
fn test_neg_positive() {
    let a = I256::try_from(U256::from(100u64)).unwrap();
    let result = -a;
    assert!(result.is_negative());
    assert_eq!(result.abs().unwrap(), U256::from(100u64));
}

#[test]
fn test_neg_negative() {
    let a = I256::try_from(-100i128).unwrap();
    let result = -a;
    assert!(!result.is_negative());
    assert_eq!(result.value, U256::from(100u64));
}

#[test]
fn test_rem_positive() {
    let a = I256::try_from(U256::from(17u64)).unwrap();
    let b = I256::try_from(U256::from(5u64)).unwrap();
    let result = a % b;
    assert_eq!(result.value, U256::from(2u64));
}

#[test]
fn test_rem_negative() {
    let a = I256::try_from(-17i128).unwrap();
    let b = I256::try_from(U256::from(5u64)).unwrap();
    let result = a % b;
    assert!(result.is_negative());
}

#[test]
fn test_checked_mul_success() {
    let a = I256::try_from(U256::from(10u64)).unwrap();
    let b = I256::try_from(U256::from(20u64)).unwrap();
    let result = a.checked_mul(&b).unwrap();
    assert_eq!(result.value, U256::from(200u64));
}

#[test]
fn test_checked_mul_overflow() {
    let max = I256::max_value();
    let two = I256::try_from(U256::from(2u64)).unwrap();
    let result = max.checked_mul(&two);
    assert!(result.is_err());
}

#[test]
fn test_checked_div_success() {
    let a = I256::try_from(U256::from(200u64)).unwrap();
    let b = I256::try_from(U256::from(10u64)).unwrap();
    let result = a.checked_div(&b).unwrap();
    assert_eq!(result.value, U256::from(20u64));
}

#[test]
fn test_checked_div_by_zero() {
    let a = I256::try_from(U256::from(100u64)).unwrap();
    let zero = I256::zero();
    let result = a.checked_div(&zero);
    assert!(result.is_err());
}

#[test]
fn test_checked_neg_success() {
    let a = I256::try_from(U256::from(100u64)).unwrap();
    let result = a.checked_neg().unwrap();
    assert!(result.is_negative());
}

#[test]
fn test_checked_neg_overflow() {
    let min = I256::min_value();
    let result = min.checked_neg();
    assert!(result.is_err());
}

#[test]
fn test_from_i128() {
    let a: I256 = 100i128.into();
    assert_eq!(a.value, U256::from(100u64));

    let b: I256 = (-100i128).into();
    assert!(b.is_negative());
}

#[test]
fn test_try_from_u128() {
    let a = I256::try_from(100u128).unwrap();
    assert_eq!(a.value, U256::from(100u64));

    let result = I256::try_from(i128::MAX as u128 + 1);
    assert!(result.is_err());
}

#[test]
fn test_try_from_u256() {
    let a = I256::try_from(U256::from(100u64)).unwrap();
    assert_eq!(a.value, U256::from(100u64));

    let max_positive = U256([0xFFFFFFFFFFFFFFFF, 0xFFFFFFFFFFFFFFFF, 0xFFFFFFFFFFFFFFFF, 0x7FFFFFFFFFFFFFFF]);
    let result = I256::try_from(max_positive);
    assert!(result.is_ok());

    let overflow = U256([0xFFFFFFFFFFFFFFFF, 0xFFFFFFFFFFFFFFFF, 0xFFFFFFFFFFFFFFFF, 0x8000000000000000]);
    let result = I256::try_from(overflow);
    assert!(result.is_err());
}

#[test]
fn test_to_u256() {
    let a = I256::try_from(U256::from(100u64)).unwrap();
    let u = a.to_u256().unwrap();
    assert_eq!(u, U256::from(100u64));

    let neg = I256::try_from(-100i128).unwrap();
    let result = neg.to_u256();
    assert!(result.is_err());
}

#[test]
fn test_is_negative() {
    let pos = I256::try_from(U256::from(100u64)).unwrap();
    assert!(!pos.is_negative());

    let neg = I256::try_from(-100i128).unwrap();
    assert!(neg.is_negative());

    let zero = I256::zero();
    assert!(!zero.is_negative());
}

#[test]
fn test_abs() {
    let pos = I256::try_from(U256::from(100u64)).unwrap();
    assert_eq!(pos.abs().unwrap(), U256::from(100u64));

    let neg = I256::try_from(-100i128).unwrap();
    assert_eq!(neg.abs().unwrap(), U256::from(100u64));
}

#[test]
fn test_comparison() {
    let a = I256::try_from(U256::from(100u64)).unwrap();
    let b = I256::try_from(U256::from(200u64)).unwrap();
    assert!(a < b);
    assert!(b > a);
    assert!(a != b);

    let c = I256::try_from(U256::from(100u64)).unwrap();
    assert!(a == c);
}

#[test]
fn test_add_assign() {
    let mut a = I256::try_from(U256::from(100u64)).unwrap();
    let b = I256::try_from(U256::from(50u64)).unwrap();
    a += b;
    assert_eq!(a.value, U256::from(150u64));
}

#[test]
fn test_sub_assign() {
    let mut a = I256::try_from(U256::from(100u64)).unwrap();
    let b = I256::try_from(U256::from(50u64)).unwrap();
    a -= b;
    assert_eq!(a.value, U256::from(50u64));
}

#[test]
fn test_mul_assign() {
    let mut a = I256::try_from(U256::from(10u64)).unwrap();
    let b = I256::try_from(U256::from(5u64)).unwrap();
    a *= b;
    assert_eq!(a.value, U256::from(50u64));
}

#[test]
fn test_div_assign() {
    let mut a = I256::try_from(U256::from(100u64)).unwrap();
    let b = I256::try_from(U256::from(5u64)).unwrap();
    a /= b;
    assert_eq!(a.value, U256::from(20u64));
}
