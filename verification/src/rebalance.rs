//! The rebalancing pass, mathematically: what one pass at a given price does
//! to one account, and to the whole ledger.
//!
//! Accounts are independent: the pass maps each account through
//! [`rebalanced`] with the same price, so the ledger-level result is the
//! pointwise image of the snapshot it started from.

use vstd::prelude::*;

use crate::account::User;
use crate::{AccountId, Balance};

verus! {

/// Whether the buy threshold fires for `u` at `price`: the price is below the
/// buy point and there is a quote holding to convert.
pub open spec fn buys(u: User, price: Balance) -> bool {
    u.range.buy_point > price && u.quote_balance > 0
}

/// Whether the sell threshold fires for `u` at `price`: the price is above
/// the sell point and there is a base holding to convert. The buy condition
/// is checked first, so a sale happens only when no purchase does.
pub open spec fn sells(u: User, price: Balance) -> bool {
    !buys(u, price) && u.range.sell_point < price && u.base_balance > 0
}

/// Whether either threshold fires for `u` at `price`.
pub open spec fn crossing(u: User, price: Balance) -> bool {
    buys(u, price) || sells(u, price)
}

/// Whether the purchase for `u` at `price`, if one fires, stays within the
/// numeric domain. A conversion of the whole quote holding multiplies it by
/// the price, and the product must fit in a [`Balance`].
pub open spec fn buy_fits(u: User, price: Balance) -> bool {
    buys(u, price) ==> u.quote_balance * price <= Balance::MAX
}

/// Whether every account of the ledger `m` fits at `price`, as
/// [`buy_fits`] asks.
pub open spec fn ledger_fits(m: Map<AccountId, User>, price: Balance) -> bool {
    forall|o: AccountId| #[trigger] m.contains_key(o) ==> buy_fits(m[o], price)
}

/// What one pass at `price` leaves of the account `u`: the whole quote
/// holding becomes base when the buy threshold fires, the whole base holding
/// becomes quote (rounded down) when the sell threshold fires, and otherwise
/// the account is untouched. The range never changes.
pub open spec fn rebalanced(u: User, price: Balance) -> User {
    if buys(u, price) {
        User {
            base_balance: (u.quote_balance * price) as Balance,
            quote_balance: 0,
            range: u.range,
        }
    } else if sells(u, price) {
        User { base_balance: 0, quote_balance: u.base_balance / price, range: u.range }
    } else {
        u
    }
}

/// What one pass at `price` leaves of the whole ledger `m`: every account is
/// rebalanced against the same snapshot, none appears or disappears.
pub open spec fn rebalanced_ledger(m: Map<AccountId, User>, price: Balance) -> Map<
    AccountId,
    User,
> {
    Map::new(
        |o: AccountId| m.contains_key(o),
        |o: AccountId| rebalanced(m[o], price),
    )
}

/// A pass leaves an account untouched exactly when neither threshold fires.
pub proof fn lemma_untouched_iff(u: User, price: Balance)
    ensures
        rebalanced(u, price) == u <==> !crossing(u, price),
{
    if buys(u, price) {
        assert(rebalanced(u, price).quote_balance == 0);
    } else if sells(u, price) {
        assert(rebalanced(u, price).base_balance == 0);
    }
}

/// An empty account whose range brackets the price is left unchanged, by any
/// number of passes at that price: such an account is a fixed point of
/// [`rebalanced`].
pub proof fn lemma_noncrossing_ping_idempotent(u: User, price: Balance)
    requires
        u.range.sell_point < price < u.range.buy_point,
        u.base_balance == 0,
        u.quote_balance == 0,
    ensures
        rebalanced(u, price) == u,
        rebalanced(rebalanced(u, price), price) == u,
{
}

/// Buy correctness: when the price is below the buy point and a quote
/// holding exists, the pass turns the whole quote holding into base at the
/// given rate and leaves nothing in quote. The range is kept.
pub proof fn lemma_buy_correct(u: User, price: Balance)
    requires
        u.quote_balance > 0,
        u.range.buy_point > price,
        u.quote_balance * price <= Balance::MAX,
    ensures
        rebalanced(u, price).base_balance == u.quote_balance * price,
        rebalanced(u, price).quote_balance == 0,
        rebalanced(u, price).range == u.range,
{
}

/// Sell correctness: when the price is above the sell point, a base holding
/// exists, and no purchase fires first, the pass turns the whole base
/// holding into quote, rounded toward zero, and leaves nothing in base. The
/// range is kept.
pub proof fn lemma_sell_correct(u: User, price: Balance)
    requires
        u.base_balance > 0,
        u.range.sell_point < price,
        !(u.range.buy_point > price && u.quote_balance > 0),
    ensures
        rebalanced(u, price).quote_balance == u.base_balance / price,
        rebalanced(u, price).base_balance == 0,
        rebalanced(u, price).range == u.range,
{
}

/// Cross-account independence: what a pass over a whole ledger leaves of one
/// account is exactly what a pass over that account alone leaves of it, so
/// the scan order cannot matter.
pub proof fn lemma_cross_account_independence(
    m: Map<AccountId, User>,
    price: Balance,
    o: AccountId,
)
    requires
        m.contains_key(o),
    ensures
        rebalanced_ledger(m, price)[o] == rebalanced(m[o], price),
        rebalanced_ledger(m, price)[o] == rebalanced_ledger(
            map![o => m[o]],
            price,
        )[o],
{
}

} // verus!
