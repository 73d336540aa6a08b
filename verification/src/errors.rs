//! The rejection kinds of the ledger's operations.
//!
//! Every operation validates its inputs before touching any state, so each
//! error stands for a whole call that was refused with no partial effect.

use vstd::prelude::*;

verus! {

/// Why an operation was rejected. No error leaves partial state behind.
#[derive(Clone, Copy, Debug, PartialEq, Eq, Structural)]
pub enum TradeError {
    /// A range was given with `buy_point <= sell_point`.
    InvalidRange,
    /// An account already exists for the owner who tried to open one.
    AlreadyOpen,
    /// No account exists for the given owner.
    NoSuchAccount,
    /// The deposit does not cover the storage reservation.
    InsufficientDeposit,
    /// The rebalancing pass was invoked by someone other than the scheduler.
    Unauthorized,
    /// The rebalancing pass was given a zero price.
    DivideByZero,
}

} // verus!
