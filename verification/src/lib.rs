//! A constant-product automated market maker: pool accounting and pricing
//! for a pair of asset reserves held in custody vaults, with a fungible
//! claim token representing proportional ownership.
//!
//! Reserves and claim supply are never cached: every operation takes the
//! live vault balances and supply counter as inputs and computes the exact
//! transfer, mint and burn amounts. All rounding truncates toward zero and
//! therefore favors the pool.
use vstd::prelude::*;

pub mod authority;
pub mod engine;
pub mod laws;
pub mod math;
pub mod pool;

verus! {

/// Errors an operation can end with. Every failure is terminal for the
/// operation: no state change is retained.
#[derive(Clone, Copy, Debug, PartialEq, Eq, Structural)]
pub enum AmmError {
    /// A caller-supplied amount was zero.
    ZeroAmount,
    /// A multiply, add or divide left the representable range, or a divisor
    /// was zero.
    ArithmeticOverflow,
    /// The output reserve of a swap is empty.
    InsufficientLiquidity,
    /// A redemption was requested against a zero claim supply or for zero
    /// claim tokens.
    InsufficientSupply,
    /// The custody authority re-derived from the stored parameter disagrees
    /// with the stored authority identity.
    AuthorityMismatch,
    /// The pool record already exists.
    AlreadyInitialized,
    /// The transfer primitive refused a movement: a source balance was too
    /// small or a destination balance would overflow.
    TransferFailed,
}

} // verus!
