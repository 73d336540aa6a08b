//! One user's holdings in the two assets, plus the owned range.

use vstd::prelude::*;

use crate::errors::TradeError;
use crate::range::Range;
use crate::Balance;

verus! {

/// A user's balances in the base and quote assets and their threshold range.
///
/// Created with the whole deposit (net of the storage reservation) in the
/// base asset and nothing in the quote asset; only the rebalancing pass moves
/// value between the two fields afterwards.
#[derive(Clone, Copy, Debug, PartialEq, Eq, Structural)]
pub struct User {
    /// Holding in the base asset.
    pub base_balance: Balance,
    /// Holding in the quote asset.
    pub quote_balance: Balance,
    /// The thresholds that trigger conversion, owned by this account alone.
    pub range: Range,
}

impl User {
    /// The invariant of every constructed account: its range is valid.
    pub open spec fn wf(self) -> bool {
        self.range.wf()
    }

    /// Builds an account holding `base_deposit` in the base asset and nothing
    /// in the quote asset, with the validated range; rejects an invalid range
    /// whole.
    pub fn new(base_deposit: Balance, buy_point: Balance, sell_point: Balance) -> (r: Result<
        User,
        TradeError,
    >)
        ensures
            buy_point > sell_point ==> r == Ok::<User, TradeError>(
                User {
                    base_balance: base_deposit,
                    quote_balance: 0,
                    range: Range { buy_point, sell_point },
                },
            ),
            buy_point <= sell_point ==> r == Err::<User, TradeError>(TradeError::InvalidRange),
            r matches Ok(u) ==> u.wf(),
    {
        match Range::new(buy_point, sell_point) {
            Ok(range) => Ok(User { base_balance: base_deposit, quote_balance: 0, range }),
            Err(e) => Err(e),
        }
    }

    /// Overwrites both balances; the range is untouched.
    pub fn update_balances(&mut self, base_balance: Balance, quote_balance: Balance)
        ensures
            *final (self) == (User { base_balance, quote_balance, range: old(self).range }),
    {
        self.base_balance = base_balance;
        self.quote_balance = quote_balance;
    }
}

} // verus!
