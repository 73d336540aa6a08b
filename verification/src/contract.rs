//! The position lifecycle and the rebalancing pass over the whole ledger.
//!
//! Every operation validates first and commits second: a rejected call
//! returns its error with the ledger exactly as it was. The boundary layer
//! supplies the caller's identity, the attached deposit and the oracle price
//! as plain values.

use vstd::map::*;
use vstd::prelude::*;

use crate::account::User;
use crate::errors::TradeError;
use crate::ledger::{Entry, Ledger};
use crate::range::Range;
use crate::rebalance::{buy_fits, crossing, ledger_fits, rebalanced, rebalanced_ledger};
use crate::{AccountId, Balance, OPEN_POSITION_STORAGE_COST};

verus! {

/// The account a successful `open_position` creates: the deposit net of the
/// storage reservation in the base asset, nothing in the quote asset, and
/// the requested range.
pub open spec fn opened_account(
    deposit_amount: Balance,
    buy_point: Balance,
    sell_point: Balance,
) -> User {
    User {
        base_balance: (deposit_amount - OPEN_POSITION_STORAGE_COST) as Balance,
        quote_balance: 0,
        range: Range { buy_point, sell_point },
    }
}

/// The engine's whole durable state: the account ledger, plus the two
/// configured identities it answers to.
pub struct Contract {
    /// The administrator who initialized the engine. Recorded at
    /// construction; no operation here depends on it.
    pub owner_id: AccountId,
    /// The only caller allowed to invoke the rebalancing pass.
    pub scheduler_id: AccountId,
    /// Every open account, keyed by owner.
    pub accounts: Ledger,
}

impl Contract {
    /// The engine's invariant: the ledger keeps one account per owner, and
    /// every account it holds has a valid range.
    pub open spec fn wf(self) -> bool {
        &&& self.accounts.wf()
        &&& forall|o: AccountId|
            #[trigger] self.accounts@.contains_key(o) ==> self.accounts@[o].wf()
    }

    /// Initializes the engine with an empty ledger and the two identities.
    pub fn new(owner_id: AccountId, scheduler_id: AccountId) -> (c: Contract)
        ensures
            c.wf(),
            c.owner_id == owner_id,
            c.scheduler_id == scheduler_id,
            c.accounts@ == Map::<AccountId, User>::empty(),
    {
        Contract { owner_id, scheduler_id, accounts: Ledger::new() }
    }

    /// Looks up the balances and range of `owner`'s account, if it has one.
    pub fn get_account(&self, owner: AccountId) -> (r: Option<User>)
        requires
            self.wf(),
        ensures
            self.accounts@.contains_key(owner) ==> r == Some(self.accounts@[owner]),
            !self.accounts@.contains_key(owner) ==> r == None::<User>,
    {
        self.accounts.get(owner)
    }

    /// Opens a position for `owner`: reserves the storage cost out of the
    /// deposit and inserts a fresh account holding the remainder in the base
    /// asset, with the validated range. Rejected whole — with `AlreadyOpen`
    /// if the owner has an account, else with `InsufficientDeposit` if the
    /// deposit does not exceed the reservation, else with `InvalidRange` if
    /// `buy_point <= sell_point` — and on rejection nothing changes.
    pub fn open_position(
        &mut self,
        owner: AccountId,
        deposit_amount: Balance,
        buy_point: Balance,
        sell_point: Balance,
    ) -> (r: Result<User, TradeError>)
        requires
            old(self).wf(),
        ensures
            final (self).wf(),
            final (self).owner_id == old(self).owner_id,
            final (self).scheduler_id == old(self).scheduler_id,
            r matches Ok(u) <==> !old(self).accounts@.contains_key(owner) && deposit_amount
                > OPEN_POSITION_STORAGE_COST && buy_point > sell_point,
            old(self).accounts@.contains_key(owner) ==> r == Err::<User, TradeError>(
                TradeError::AlreadyOpen,
            ),
            !old(self).accounts@.contains_key(owner) && deposit_amount
                <= OPEN_POSITION_STORAGE_COST ==> r == Err::<User, TradeError>(
                TradeError::InsufficientDeposit,
            ),
            !old(self).accounts@.contains_key(owner) && deposit_amount
                > OPEN_POSITION_STORAGE_COST && buy_point <= sell_point ==> r == Err::<
                User,
                TradeError,
            >(TradeError::InvalidRange),
            r matches Ok(u) ==> u == opened_account(deposit_amount, buy_point, sell_point)
                && final (self).accounts@ == old(self).accounts@.insert(owner, u),
            r matches Err(e) ==> final (self).accounts@ == old(self).accounts@,
    {
        if self.accounts.contains(owner) {
            return Err(TradeError::AlreadyOpen);
        }
        if deposit_amount <= OPEN_POSITION_STORAGE_COST {
            return Err(TradeError::InsufficientDeposit);
        }
        let deposit = deposit_amount - OPEN_POSITION_STORAGE_COST;
        match User::new(deposit, buy_point, sell_point) {
            Ok(u) => {
                self.accounts.insert(owner, u);
                Ok(u)
            },
            Err(e) => Err(e),
        }
    }

    /// Replaces the range of `owner`'s account, both thresholds at once.
    /// Rejected whole — with `NoSuchAccount` if the owner has no account,
    /// else with `InvalidRange` if `buy_point <= sell_point` — and on
    /// rejection nothing changes. The balances are never touched.
    pub fn change_position(
        &mut self,
        owner: AccountId,
        buy_point: Balance,
        sell_point: Balance,
    ) -> (r: Result<(), TradeError>)
        requires
            old(self).wf(),
        ensures
            final (self).wf(),
            final (self).owner_id == old(self).owner_id,
            final (self).scheduler_id == old(self).scheduler_id,
            r matches Ok(u) <==> old(self).accounts@.contains_key(owner) && buy_point > sell_point,
            !old(self).accounts@.contains_key(owner) ==> r == Err::<(), TradeError>(
                TradeError::NoSuchAccount,
            ),
            old(self).accounts@.contains_key(owner) && buy_point <= sell_point ==> r == Err::<
                (),
                TradeError,
            >(TradeError::InvalidRange),
            r matches Ok(u) ==> final (self).accounts@ == old(self).accounts@.insert(
                owner,
                (User {
                    base_balance: old(self).accounts@[owner].base_balance,
                    quote_balance: old(self).accounts@[owner].quote_balance,
                    range: Range { buy_point, sell_point },
                }),
            ),
            r matches Err(e) ==> final (self).accounts@ == old(self).accounts@,
    {
        match self.accounts.get(owner) {
            Some(u) => {
                let mut updated = u;
                match updated.range.update(buy_point, sell_point) {
                    Ok(()) => {
                        self.accounts.insert(owner, updated);
                        Ok(())
                    },
                    Err(e) => Err(e),
                }
            },
            None => Err(TradeError::NoSuchAccount),
        }
    }

    /// Closes `owner`'s position: deletes the account and returns the base
    /// holding plus the released storage reservation, for the boundary layer
    /// to transfer back. The quote holding is not settled here; its
    /// cross-asset settlement on exit is a separate, external concern.
    /// Rejected whole with `NoSuchAccount` if the owner has no account.
    pub fn close_position(&mut self, owner: AccountId) -> (r: Result<Balance, TradeError>)
        requires
            old(self).wf(),
            old(self).accounts@.contains_key(owner) ==> old(self).accounts@[owner].base_balance
                + OPEN_POSITION_STORAGE_COST <= Balance::MAX,
        ensures
            final (self).wf(),
            final (self).owner_id == old(self).owner_id,
            final (self).scheduler_id == old(self).scheduler_id,
            old(self).accounts@.contains_key(owner) ==> r == Ok::<Balance, TradeError>(
                (old(self).accounts@[owner].base_balance + OPEN_POSITION_STORAGE_COST) as Balance,
            ) && final (self).accounts@ == old(self).accounts@.remove(owner),
            !old(self).accounts@.contains_key(owner) ==> r == Err::<Balance, TradeError>(
                TradeError::NoSuchAccount,
            ) && final (self).accounts@ == old(self).accounts@,
    {
        match self.accounts.remove(owner) {
            Some(u) => Ok(u.base_balance + OPEN_POSITION_STORAGE_COST),
            None => Err(TradeError::NoSuchAccount),
        }
    }

    /// The rebalancing pass. Only the registered scheduler may invoke it, a
    /// zero price is rejected before any account is examined, and otherwise
    /// every account is converted — or left alone — against the same ledger
    /// snapshot at the given price, as [`rebalanced_ledger`] states. All
    /// conversions are computed before any is written back, so no account's
    /// decision sees another's update from the same pass.
    #[verifier::loop_isolation(false)]
    pub fn ping(&mut self, caller: AccountId, price: Balance) -> (r: Result<(), TradeError>)
        requires
            old(self).wf(),
            caller == old(self).scheduler_id && price > 0 ==> ledger_fits(
                old(self).accounts@,
                price,
            ),
        ensures
            final (self).wf(),
            final (self).owner_id == old(self).owner_id,
            final (self).scheduler_id == old(self).scheduler_id,
            r matches Ok(u) <==> caller == old(self).scheduler_id && price > 0,
            caller != old(self).scheduler_id ==> r == Err::<(), TradeError>(
                TradeError::Unauthorized,
            ) && final (self).accounts@ == old(self).accounts@,
            caller == old(self).scheduler_id && price == 0 ==> r == Err::<(), TradeError>(
                TradeError::DivideByZero,
            ) && final (self).accounts@ == old(self).accounts@,
            r matches Ok(u) ==> final (self).accounts@ == rebalanced_ledger(
                old(self).accounts@,
                price,
            ),
    {
        if caller != self.scheduler_id {
            return Err(TradeError::Unauthorized);
        }
        if price == 0 {
            return Err(TradeError::DivideByZero);
        }
        let ghost m0 = self.accounts@;

        // Compute phase: decide every conversion against the same snapshot.
        let snapshot = self.accounts.slots();
        let mut updates: Vec<Entry> = Vec::new();
        let n = snapshot.len();
        let mut k: usize = 0;
        while k < n
            invariant
                k <= n,
                forall|j: int|
                    0 <= j < updates@.len() ==> m0.contains_key((#[trigger] updates@[j]).owner)
                        && updates@[j].user == rebalanced(m0[updates@[j].owner], price),
                forall|j: int|
                    0 <= j < updates@.len() ==> exists|i: int|
                        0 <= i < k && (#[trigger] snapshot@[i]).owner == (
                        #[trigger] updates@[j]).owner,
                forall|j1: int, j2: int|
                    0 <= j1 < j2 < updates@.len() ==> (#[trigger] updates@[j1]).owner != (
                    #[trigger] updates@[j2]).owner,
                forall|i: int|
                    0 <= i < k && crossing(m0[(#[trigger] snapshot@[i]).owner], price)
                        ==> exists|j: int|
                        0 <= j < updates@.len() && (#[trigger] updates@[j]).owner
                            == snapshot@[i].owner,
            decreases n - k,
        {
            let e = snapshot[k];
            let ghost u0 = updates@;
            let mut user = e.user;
            proof {
                assert(m0.contains_key(e.owner) && m0[e.owner] == user);
                assert(buy_fits(user, price));
            }
            if user.range.buy_point > price && user.quote_balance > 0 {
                let converted = user.quote_balance * price;
                user.update_balances(converted, 0);
                proof {
                    assert(user == rebalanced(m0[e.owner], price));
                }
                updates.push(Entry { owner: e.owner, user });
            } else if user.range.sell_point < price && user.base_balance > 0 {
                let converted = user.base_balance / price;
                user.update_balances(0, converted);
                proof {
                    assert(user == rebalanced(m0[e.owner], price));
                }
                updates.push(Entry { owner: e.owner, user });
            } else {
                proof {
                    assert(!crossing(m0[e.owner], price));
                }
            }
            proof {
                assert forall|i: int|
                    0 <= i < k + 1 && crossing(
                        m0[(#[trigger] snapshot@[i]).owner],
                        price,
                    ) implies exists|j: int|
                    0 <= j < updates@.len() && (#[trigger] updates@[j]).owner
                        == snapshot@[i].owner by {
                    if i < k {
                        let j = choose|j: int|
                            0 <= j < u0.len() && (#[trigger] u0[j]).owner == snapshot@[i].owner;
                        assert(updates@[j].owner == snapshot@[i].owner);
                    } else {
                        if crossing(m0[e.owner], price) {
                            assert(updates@[updates@.len() - 1].owner == e.owner);
                        }
                    }
                }
            }
            k += 1;
        }

        // Apply phase: write the buffered conversions back.
        let m = updates.len();
        let mut t: usize = 0;
        while t < m
            invariant
                t <= m,
                self.owner_id == old(self).owner_id,
                self.scheduler_id == old(self).scheduler_id,
                self.accounts.wf(),
                forall|o: AccountId|
                    self.accounts@.contains_key(o) <==> #[trigger] m0.contains_key(o),
                forall|o: AccountId|
                    #[trigger] m0.contains_key(o) ==> self.accounts@[o] == (if (exists|j: int|
                        0 <= j < t && (#[trigger] updates@[j]).owner == o) {
                        rebalanced(m0[o], price)
                    } else {
                        m0[o]
                    }),
            decreases m - t,
        {
            let e = updates[t];
            self.accounts.insert(e.owner, e.user);
            proof {
                assert forall|o: AccountId| #[trigger] m0.contains_key(o) implies self.accounts@[o]
                    == (if (exists|j: int| 0 <= j < t + 1 && (#[trigger] updates@[j]).owner == o) {
                    rebalanced(m0[o], price)
                } else {
                    m0[o]
                }) by {
                    if o == e.owner {
                        assert(updates@[t as int].owner == o);
                    } else {
                        if exists|j: int| 0 <= j < t + 1 && (#[trigger] updates@[j]).owner == o {
                            let j = choose|j: int|
                                0 <= j < t + 1 && (#[trigger] updates@[j]).owner == o;
                            assert(j != t);
                            assert(0 <= j < t && updates@[j].owner == o);
                        }
                    }
                }
            }
            t += 1;
        }
        proof {
            assert forall|o: AccountId| #[trigger] m0.contains_key(o) implies self.accounts@[o]
                == rebalanced(m0[o], price) by {
                if !(exists|j: int| 0 <= j < m && (#[trigger] updates@[j]).owner == o) {
                    let i = choose|i: int|
                        0 <= i < n && (#[trigger] snapshot@[i]).owner == o;
                    assert(0 <= i < n && snapshot@[i].owner == o);
                    assert(!crossing(m0[o], price));
                    crate::rebalance::lemma_untouched_iff(m0[o], price);
                }
            }
            assert_maps_equal!(self.accounts@, rebalanced_ledger(m0, price), o => {});
        }
        Ok(())
    }
}

} // verus!
