use twamm::errors::TWAMMError;
use twamm::utils::{safe_add, safe_div, safe_mul, safe_sub};

#[test]
fn safe_add_exact() {
    assert_eq!(safe_add(2, 3), Ok(5));
    assert_eq!(safe_add(0, u128::MAX), Ok(u128::MAX));
}

#[test]
fn safe_add_overflow() {
    assert_eq!(safe_add(u128::MAX, 1), Err(TWAMMError::SafeMathError));
}

#[test]
fn safe_sub_exact() {
    assert_eq!(safe_sub(10, 3), Ok(7));
    assert_eq!(safe_sub(5, 5), Ok(0));
}

#[test]
fn safe_sub_underflow() {
    assert_eq!(safe_sub(5, 10), Err(TWAMMError::SafeMathError));
}

#[test]
fn safe_mul_exact() {
    assert_eq!(safe_mul(6, 7), Ok(42));
    assert_eq!(safe_mul(0, u128::MAX), Ok(0));
}

#[test]
fn safe_mul_overflow() {
    assert_eq!(safe_mul(u128::MAX, 2), Err(TWAMMError::SafeMathError));
}

#[test]
fn safe_div_exact() {
    assert_eq!(safe_div(7, 2), Ok(3));
    assert_eq!(safe_div(1_000_000, 3600), Ok(277));
}

#[test]
fn safe_div_by_zero() {
    assert_eq!(safe_div(10, 0), Err(TWAMMError::DivisionByZero));
}
