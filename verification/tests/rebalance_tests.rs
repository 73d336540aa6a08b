//! The rebalancing pass: authorization, zero-price rejection, conversions,
//! idempotence of untouched accounts, and order independence.

use trader::contract::Contract;
use trader::errors::TradeError;
use trader::OPEN_POSITION_STORAGE_COST;

const COST: u128 = OPEN_POSITION_STORAGE_COST;
const SCHEDULER: u64 = 2;

fn engine() -> Contract {
    Contract::new(1, SCHEDULER)
}

#[test]
fn ping_rejects_non_scheduler() {
    let mut c = engine();
    c.open_position(7, COST + 100, 10, 2).unwrap();
    assert_eq!(c.ping(3, 5), Err(TradeError::Unauthorized));
    // The ledger is untouched.
    let u = c.get_account(7).unwrap();
    assert_eq!(u.base_balance, 100);
    assert_eq!(u.quote_balance, 0);
}

#[test]
fn ping_rejects_zero_price() {
    let mut c = engine();
    c.open_position(7, COST + 100, 10, 2).unwrap();
    assert_eq!(c.ping(SCHEDULER, 0), Err(TradeError::DivideByZero));
    assert_eq!(c.get_account(7).unwrap().base_balance, 100);
}

#[test]
fn ping_sell_converts_whole_base_holding() {
    let mut c = engine();
    // base 100, sell point 2 < price 7: the whole holding becomes quote,
    // rounded toward zero (100 / 7 = 14, the dust of 2 is accepted loss).
    c.open_position(7, COST + 100, 10, 2).unwrap();
    assert_eq!(c.ping(SCHEDULER, 7), Ok(()));
    let u = c.get_account(7).unwrap();
    assert_eq!(u.base_balance, 0);
    assert_eq!(u.quote_balance, 14);
}

#[test]
fn ping_buy_converts_whole_quote_holding() {
    let mut c = engine();
    c.open_position(7, COST + 100, 10, 2).unwrap();
    // First pass at price 5 sells: quote becomes 100 / 5 = 20.
    c.ping(SCHEDULER, 5).unwrap();
    assert_eq!(c.get_account(7).unwrap().quote_balance, 20);
    // Second pass at price 4 buys: base becomes 20 * 4 = 80, quote empties.
    c.ping(SCHEDULER, 4).unwrap();
    let u = c.get_account(7).unwrap();
    assert_eq!(u.base_balance, 80);
    assert_eq!(u.quote_balance, 0);
}

#[test]
fn ping_buy_fires_before_sell() {
    let mut c = engine();
    // Build an account holding quote only: base 100 sold at price 5.
    c.open_position(7, COST + 100, 10, 2).unwrap();
    c.ping(SCHEDULER, 5).unwrap();
    // At price 5 both threshold comparisons hold (2 < 5 < 10), but the buy
    // branch is decided first, so the quote holding is bought back.
    c.ping(SCHEDULER, 5).unwrap();
    let u = c.get_account(7).unwrap();
    assert_eq!(u.base_balance, 100);
    assert_eq!(u.quote_balance, 0);
}

#[test]
fn ping_leaves_empty_account_in_band_unchanged() {
    let mut c = engine();
    // Shrink the account to nothing: base 1 sold at price 5 leaves 1/5 = 0.
    c.open_position(7, COST + 1, 10, 2).unwrap();
    c.ping(SCHEDULER, 5).unwrap();
    let drained = c.get_account(7).unwrap();
    assert_eq!(drained.base_balance, 0);
    assert_eq!(drained.quote_balance, 0);
    // With 2 < 5 < 10 and nothing to convert, repeated passes change nothing.
    c.ping(SCHEDULER, 5).unwrap();
    assert_eq!(c.get_account(7).unwrap(), drained);
    c.ping(SCHEDULER, 5).unwrap();
    assert_eq!(c.get_account(7).unwrap(), drained);
}

#[test]
fn ping_leaves_account_above_buy_point_with_no_base_unchanged() {
    let mut c = engine();
    c.open_position(7, COST + 100, 10, 2).unwrap();
    c.ping(SCHEDULER, 5).unwrap();
    // Now base 0, quote 20. At price 12 >= buy point nothing fires: the buy
    // needs the price below 10 and the sale needs a base holding.
    c.ping(SCHEDULER, 12).unwrap();
    let u = c.get_account(7).unwrap();
    assert_eq!(u.base_balance, 0);
    assert_eq!(u.quote_balance, 20);
}

#[test]
fn ping_on_empty_ledger_succeeds() {
    let mut c = engine();
    assert_eq!(c.ping(SCHEDULER, 5), Ok(()));
}

#[test]
fn ping_converts_every_crossing_account_in_one_pass() {
    let mut c = engine();
    c.open_position(7, COST + 100, 10, 2).unwrap();
    c.open_position(8, COST + 30, 10, 2).unwrap();
    c.ping(SCHEDULER, 5).unwrap();
    assert_eq!(c.get_account(7).unwrap().quote_balance, 20);
    assert_eq!(c.get_account(8).unwrap().quote_balance, 6);
    assert_eq!(c.get_account(7).unwrap().base_balance, 0);
    assert_eq!(c.get_account(8).unwrap().base_balance, 0);
}

#[test]
fn ping_pass_equals_individual_passes() {
    // One pass over three accounts gives, per account, the same result as a
    // pass over that account alone, whatever the insertion order.
    let setups: [(u64, u128, u128, u128); 3] =
        [(7, 100, 10, 2), (8, 50, 10, 7), (9, 9, 4, 1)];
    let price: u128 = 5;

    let mut whole = engine();
    for (owner, deposit, buy, sell) in setups {
        whole.open_position(owner, COST + deposit, buy, sell).unwrap();
    }
    whole.ping(SCHEDULER, price).unwrap();

    let mut reversed = engine();
    for (owner, deposit, buy, sell) in setups.iter().rev() {
        reversed
            .open_position(*owner, COST + deposit, *buy, *sell)
            .unwrap();
    }
    reversed.ping(SCHEDULER, price).unwrap();

    for (owner, deposit, buy, sell) in setups {
        let mut alone = engine();
        alone.open_position(owner, COST + deposit, buy, sell).unwrap();
        alone.ping(SCHEDULER, price).unwrap();
        assert_eq!(whole.get_account(owner), alone.get_account(owner));
        assert_eq!(reversed.get_account(owner), alone.get_account(owner));
    }

    // And the concrete outcomes are the expected ones.
    assert_eq!(whole.get_account(7).unwrap().quote_balance, 20); // 100 / 5
    assert_eq!(whole.get_account(8).unwrap().base_balance, 50); // untouched
    assert_eq!(whole.get_account(9).unwrap().quote_balance, 1); // 9 / 5
}
