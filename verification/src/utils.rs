//! Checked arithmetic over `u128`.
//!
//! These four functions are the only arithmetic primitives the rest of the
//! engine uses on monetary or time quantities: every overflow, underflow or
//! division by zero is reported as an error, never wrapped and never a
//! panic.

use vstd::prelude::*;
use crate::errors::TWAMMError;

verus! {

/// Checked addition: the exact sum, or `SafeMathError` on overflow.
pub fn safe_add(a: u128, b: u128) -> (r: Result<u128, TWAMMError>)
    ensures
        a + b <= u128::MAX ==> r == Ok::<u128, TWAMMError>((a + b) as u128),
        a + b > u128::MAX ==> r == Err::<u128, TWAMMError>(TWAMMError::SafeMathError),
{
    if a <= u128::MAX - b {
        Ok(a + b)
    } else {
        Err(TWAMMError::SafeMathError)
    }
}

/// Checked subtraction: the exact difference, or `SafeMathError` when the
/// result would be negative.
pub fn safe_sub(a: u128, b: u128) -> (r: Result<u128, TWAMMError>)
    ensures
        a >= b ==> r == Ok::<u128, TWAMMError>((a - b) as u128),
        a < b ==> r == Err::<u128, TWAMMError>(TWAMMError::SafeMathError),
{
    if a >= b {
        Ok(a - b)
    } else {
        Err(TWAMMError::SafeMathError)
    }
}

/// Checked multiplication: the exact product, or `SafeMathError` on
/// overflow.
pub fn safe_mul(a: u128, b: u128) -> (r: Result<u128, TWAMMError>)
    ensures
        a * b <= u128::MAX ==> r == Ok::<u128, TWAMMError>((a * b) as u128),
        a * b > u128::MAX ==> r == Err::<u128, TWAMMError>(TWAMMError::SafeMathError),
{
    if a == 0 {
        Ok(0)
    } else {
        let q = u128::MAX / a;
        if b <= q {
            proof {
                assert(a * b <= a * (u128::MAX as int / a as int) <= u128::MAX) by (nonlinear_arith)
                    requires a > 0 && b <= u128::MAX as int / a as int;
            }
            Ok(a * b)
        } else {
            proof {
                assert(a * b > u128::MAX) by (nonlinear_arith)
                    requires a > 0 && b > u128::MAX as int / a as int;
            }
            Err(TWAMMError::SafeMathError)
        }
    }
}

/// Checked division: `DivisionByZero` when the denominator is zero,
/// otherwise the floored integer quotient.
pub fn safe_div(a: u128, b: u128) -> (r: Result<u128, TWAMMError>)
    ensures
        b == 0 ==> r == Err::<u128, TWAMMError>(TWAMMError::DivisionByZero),
        b != 0 ==> r == Ok::<u128, TWAMMError>((a / b) as u128),
{
    if b == 0 {
        Err(TWAMMError::DivisionByZero)
    } else {
        Ok(a / b)
    }
}

} // verus!
