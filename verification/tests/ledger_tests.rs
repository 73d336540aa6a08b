//! The ledger container on its own: one account per owner, lookups, removal.

use trader::account::User;
use trader::ledger::Ledger;

fn user(base: u128, quote: u128) -> User {
    let mut u = User::new(base, 10, 2).unwrap();
    u.update_balances(base, quote);
    u
}

#[test]
fn ledger_starts_empty() {
    let l = Ledger::new();
    assert_eq!(l.get(7), None);
    assert!(!l.contains(7));
    assert!(l.slots().is_empty());
}

#[test]
fn ledger_insert_then_get() {
    let mut l = Ledger::new();
    l.insert(7, user(100, 0));
    l.insert(8, user(50, 5));
    assert_eq!(l.get(7), Some(user(100, 0)));
    assert_eq!(l.get(8), Some(user(50, 5)));
    assert_eq!(l.get(9), None);
}

#[test]
fn ledger_insert_replaces_existing_owner() {
    let mut l = Ledger::new();
    l.insert(7, user(100, 0));
    l.insert(7, user(3, 4));
    assert_eq!(l.get(7), Some(user(3, 4)));
    assert_eq!(l.slots().len(), 1);
}

#[test]
fn ledger_remove_hands_the_account_back() {
    let mut l = Ledger::new();
    l.insert(7, user(100, 0));
    l.insert(8, user(50, 5));
    assert_eq!(l.remove(7), Some(user(100, 0)));
    assert_eq!(l.get(7), None);
    assert_eq!(l.get(8), Some(user(50, 5)));
    assert_eq!(l.remove(7), None);
}

#[test]
fn ledger_slots_list_every_owner_once() {
    let mut l = Ledger::new();
    l.insert(7, user(100, 0));
    l.insert(8, user(50, 5));
    l.insert(7, user(1, 2));
    let slots = l.slots();
    assert_eq!(slots.len(), 2);
    let mut owners: Vec<u64> = slots.iter().map(|e| e.owner).collect();
    owners.sort();
    assert_eq!(owners, vec![7, 8]);
    for e in slots {
        assert_eq!(l.get(e.owner), Some(e.user));
    }
}
