//! A position-rebalancing ledger.
//!
//! Users deposit a base asset, declare a price range (a buy threshold above a
//! sell threshold), and a periodic rebalancing pass converts each account's
//! holdings between the base asset and a quote asset whenever the supplied
//! market price crosses that account's thresholds.
//!
//! The host environment (caller identities, attached deposits, the price
//! oracle, settlement transfers, durable storage) stays outside this crate;
//! every operation here takes plain values and returns plain values.

use vstd::prelude::*;

pub mod account;
pub mod contract;
pub mod errors;
pub mod ledger;
pub mod range;
pub mod rebalance;

verus! {

/// A numeric account identifier, assigned by the boundary layer.
pub type AccountId = u64;

/// A non-negative fixed-point quantity of an asset, in the host's smallest unit.
pub type Balance = u128;

/// The fixed storage reservation withheld from every deposit when a position
/// is opened and released again when it is closed: an estimated 600 bytes of
/// durable account state at the host's per-byte storage price.
pub const OPEN_POSITION_STORAGE_COST: Balance = 600 * 10_000_000_000_000_000_000;

} // verus!
