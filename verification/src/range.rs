//! A validated pair of price thresholds.

use vstd::prelude::*;

use crate::errors::TradeError;
use crate::Balance;

verus! {

/// An account's buy/sell thresholds for the base-quote pair.
///
/// The invariant `buy_point > sell_point` is established at construction and
/// preserved by every mutation; a violating pair is rejected whole with
/// [`TradeError::InvalidRange`] before anything changes.
#[derive(Clone, Copy, Debug, PartialEq, Eq, Structural)]
pub struct Range {
    /// Convert quote holdings into the base asset when the price is below this.
    pub buy_point: Balance,
    /// Convert base holdings into the quote asset when the price is above this.
    pub sell_point: Balance,
}

impl Range {
    /// The invariant of every constructed range.
    pub open spec fn wf(self) -> bool {
        self.buy_point > self.sell_point
    }

    /// Validates the pair and builds the range, or rejects it whole.
    pub fn new(buy_point: Balance, sell_point: Balance) -> (r: Result<Range, TradeError>)
        ensures
            buy_point > sell_point ==> r == Ok::<Range, TradeError>(
                Range { buy_point, sell_point },
            ),
            buy_point <= sell_point ==> r == Err::<Range, TradeError>(TradeError::InvalidRange),
            r matches Ok(range) ==> range.wf(),
    {
        if buy_point > sell_point {
            Ok(Range { buy_point, sell_point })
        } else {
            Err(TradeError::InvalidRange)
        }
    }

    /// Replaces both thresholds atomically: validation runs first, and on
    /// rejection neither field changes.
    pub fn update(&mut self, buy_point: Balance, sell_point: Balance) -> (r: Result<
        (),
        TradeError,
    >)
        ensures
            buy_point > sell_point ==> r == Ok::<(), TradeError>(()) && *final (self) == (Range {
                buy_point,
                sell_point,
            }),
            buy_point <= sell_point ==> r == Err::<(), TradeError>(TradeError::InvalidRange)
                && *final (self) == *old(self),
            old(self).wf() || buy_point > sell_point ==> final (self).wf(),
    {
        if buy_point > sell_point {
            self.buy_point = buy_point;
            self.sell_point = sell_point;
            Ok(())
        } else {
            Err(TradeError::InvalidRange)
        }
    }
}

} // verus!
