//! The flat error taxonomy of the engine.
//!
//! Every fallible step returns its error immediately to the caller; a
//! failing validation or arithmetic error aborts the whole operation with
//! no state mutation.

use vstd::prelude::*;

verus! {

/// Everything that can go wrong in a single engine call.  All variants are
/// terminal for the current call; the caller may retry as a fresh call.
#[derive(Debug, Clone, Copy, PartialEq, Eq, Structural)]
pub enum TWAMMError {
    Unauthorized,
    InvalidDuration,
    InvalidAmount,
    InvalidOrder,
    OrderNotActive,
    MaxOrdersReached,
    SlippageExceeded,
    NoFeesToCollect,
    TransferFailed,
    OrderAlreadyClaimed,
    NothingToClaim,
    DivisionByZero,
    SafeMathError,
}

} // verus!
