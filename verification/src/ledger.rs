//! The account ledger: every open account, keyed by its owner's identifier.
//!
//! The ledger owns all accounts and keeps at most one per owner. Its
//! mathematical model is a finite map from identifier to account, and every
//! operation's contract is stated over that map; how the entries are stored
//! is private to this module.

use vstd::map::*;
use vstd::prelude::*;

use crate::account::User;
use crate::AccountId;

verus! {

/// One stored slot: an owner's identifier and the account it owns.
#[derive(Clone, Copy, Debug, PartialEq, Eq, Structural)]
pub struct Entry {
    /// The identifier the account is keyed by.
    pub owner: AccountId,
    /// The account itself.
    pub user: User,
}

/// Whether some slot of `s` is keyed by `o`.
spec fn seq_has(s: Seq<Entry>, o: AccountId) -> bool {
    exists|i: int| 0 <= i < s.len() && (#[trigger] s[i]).owner == o
}

/// The index of the slot of `s` keyed by `o` (meaningful only when unique).
spec fn seq_index_of(s: Seq<Entry>, o: AccountId) -> int {
    choose|i: int| 0 <= i < s.len() && (#[trigger] s[i]).owner == o
}

/// Whether no two slots of `s` share an owner.
spec fn seq_unique(s: Seq<Entry>) -> bool {
    forall|i: int, j: int|
        0 <= i < j < s.len() ==> (#[trigger] s[i]).owner != (#[trigger] s[j]).owner
}

/// The map a slot sequence stands for.
spec fn map_of(s: Seq<Entry>) -> Map<AccountId, User> {
    Map::new(|o: AccountId| seq_has(s, o), |o: AccountId| s[seq_index_of(s, o)].user)
}

/// The slot at a valid index decides that owner's map entry, when owners are
/// unique.
proof fn lemma_map_at(s: Seq<Entry>, k: int)
    requires
        seq_unique(s),
        0 <= k < s.len(),
    ensures
        map_of(s).contains_key(s[k].owner),
        map_of(s)[s[k].owner] == s[k].user,
{
    let o = s[k].owner;
    assert(seq_has(s, o));
    let i = seq_index_of(s, o);
    assert(0 <= i < s.len() && s[i].owner == o);
    assert(i == k);
}

/// The account ledger.
pub struct Ledger {
    entries: Vec<Entry>,
}

impl View for Ledger {
    type V = Map<AccountId, User>;

    /// The map from owner identifier to account that this ledger holds.
    closed spec fn view(&self) -> Map<AccountId, User> {
        map_of(self.entries@)
    }
}

impl Ledger {
    /// The ledger's invariant: at most one account per owner identifier.
    pub closed spec fn wf(self) -> bool {
        seq_unique(self.entries@)
    }

    /// An empty ledger.
    pub fn new() -> (l: Ledger)
        ensures
            l.wf(),
            l@ == Map::<AccountId, User>::empty(),
    {
        let l = Ledger { entries: Vec::new() };
        proof {
            assert(l@ =~= Map::<AccountId, User>::empty());
        }
        l
    }

    /// The index of `owner`'s slot, if it has one.
    fn index_of(&self, owner: AccountId) -> (r: Option<usize>)
        requires
            self.wf(),
        ensures
            match r {
                Some(i) => i < self.entries@.len() && self.entries@[i as int].owner == owner,
                None => !seq_has(self.entries@, owner),
            },
    {
        let n = self.entries.len();
        let mut k: usize = 0;
        while k < n
            invariant
                n == self.entries@.len(),
                k <= n,
                forall|i: int| 0 <= i < k ==> (#[trigger] self.entries@[i]).owner != owner,
            decreases n - k,
        {
            if self.entries[k].owner == owner {
                return Some(k);
            }
            k += 1;
        }
        None
    }

    /// Looks an account up by its owner.
    pub fn get(&self, owner: AccountId) -> (r: Option<User>)
        requires
            self.wf(),
        ensures
            self@.contains_key(owner) ==> r == Some(self@[owner]),
            !self@.contains_key(owner) ==> r == None::<User>,
    {
        match self.index_of(owner) {
            Some(i) => {
                proof {
                    lemma_map_at(self.entries@, i as int);
                }
                Some(self.entries[i].user)
            },
            None => None,
        }
    }

    /// Whether an account exists for `owner`.
    pub fn contains(&self, owner: AccountId) -> (b: bool)
        requires
            self.wf(),
        ensures
            b == self@.contains_key(owner),
    {
        self.get(owner).is_some()
    }

    /// Inserts `user` under `owner`, replacing any account already there.
    pub fn insert(&mut self, owner: AccountId, user: User)
        requires
            old(self).wf(),
        ensures
            final (self).wf(),
            final (self)@ == old(self)@.insert(owner, user),
    {
        let e = Entry { owner, user };
        match self.index_of(owner) {
            Some(i) => {
                let ghost s0 = self.entries@;
                self.entries[i] = e;
                proof {
                    let s1 = self.entries@;
                    assert(forall|j: int|
                        0 <= j < s1.len() ==> (#[trigger] s1[j]).owner == s0[j].owner);
                    lemma_updated_map(s0, s1, i as int, owner, user);
                }
            },
            None => {
                let ghost s0 = self.entries@;
                self.entries.push(e);
                proof {
                    let s1 = self.entries@;
                    lemma_pushed_map(s0, s1, owner, user);
                }
            },
        }
    }

    /// Removes `owner`'s account, handing it back if there was one.
    pub fn remove(&mut self, owner: AccountId) -> (r: Option<User>)
        requires
            old(self).wf(),
        ensures
            final (self).wf(),
            final (self)@ == old(self)@.remove(owner),
            old(self)@.contains_key(owner) ==> r == Some(old(self)@[owner]),
            !old(self)@.contains_key(owner) ==> r == None::<User> && final (self)@ == old(self)@,
    {
        match self.index_of(owner) {
            Some(i) => {
                let ghost s0 = self.entries@;
                proof {
                    lemma_map_at(s0, i as int);
                }
                let e = self.entries.remove(i);
                proof {
                    let s1 = self.entries@;
                    lemma_removed_map(s0, s1, i as int, owner);
                }
                Some(e.user)
            },
            None => {
                proof {
                    assert(self@ =~= self@.remove(owner));
                }
                None
            },
        }
    }

    /// Hands out a copy of every slot: each listed account is the ledger's
    /// account for its owner, every owner in the ledger is listed, and no
    /// owner is listed twice.
    pub fn slots(&self) -> (v: Vec<Entry>)
        requires
            self.wf(),
        ensures
            forall|k: int|
                0 <= k < v@.len() ==> self@.contains_key((#[trigger] v@[k]).owner) && v@[k].user
                    == self@[v@[k].owner],
            forall|o: AccountId|
                #[trigger] self@.contains_key(o) ==> exists|k: int|
                    0 <= k < v@.len() && (#[trigger] v@[k]).owner == o,
            forall|k1: int, k2: int|
                0 <= k1 < k2 < v@.len() ==> (#[trigger] v@[k1]).owner != (#[trigger] v@[k2]).owner,
    {
        let n = self.entries.len();
        let mut v: Vec<Entry> = Vec::new();
        let mut k: usize = 0;
        while k < n
            invariant
                self.wf(),
                n == self.entries@.len(),
                k <= n,
                v@ == self.entries@.take(k as int),
            decreases n - k,
        {
            let e = self.entries[k];
            v.push(e);
            proof {
                assert(v@ =~= self.entries@.take(k as int + 1));
            }
            k += 1;
        }
        proof {
            assert(v@ =~= self.entries@);
            assert forall|k1: int| 0 <= k1 < v@.len() implies self@.contains_key(
                (#[trigger] v@[k1]).owner,
            ) && v@[k1].user == self@[v@[k1].owner] by {
                lemma_map_at(self.entries@, k1);
            }
        }
        v
    }
}

/// Overwriting the slot that already holds `owner` inserts into the map.
proof fn lemma_updated_map(s0: Seq<Entry>, s1: Seq<Entry>, i: int, owner: AccountId, user: User)
    requires
        seq_unique(s0),
        0 <= i < s0.len(),
        s0[i].owner == owner,
        s1 == s0.update(i, Entry { owner, user }),
    ensures
        seq_unique(s1),
        map_of(s1) == map_of(s0).insert(owner, user),
{
    assert(forall|j: int| 0 <= j < s1.len() ==> (#[trigger] s1[j]).owner == s0[j].owner);
    assert(seq_unique(s1));
    assert_maps_equal!(map_of(s1), map_of(s0).insert(owner, user), o => {
        if seq_has(s1, o) {
            let j = seq_index_of(s1, o);
            assert(0 <= j < s1.len() && s1[j].owner == o);
            assert(s0[j].owner == o);
            assert(seq_has(s0, o));
            lemma_map_at(s1, j);
            if o == owner {
                assert(j == i);
                assert(map_of(s1)[o] == user);
            } else {
                assert(j != i);
                assert(s1[j] == s0[j]);
                lemma_map_at(s0, j);
            }
        } else {
            if seq_has(s0, o) {
                let j = seq_index_of(s0, o);
                assert(0 <= j < s0.len() && s0[j].owner == o);
                assert(s1[j].owner == o);
                assert(false);
            }
        }
    });
}

/// Appending a slot for an owner the sequence lacks inserts into the map.
proof fn lemma_pushed_map(s0: Seq<Entry>, s1: Seq<Entry>, owner: AccountId, user: User)
    requires
        seq_unique(s0),
        !seq_has(s0, owner),
        s1 == s0.push(Entry { owner, user }),
    ensures
        seq_unique(s1),
        map_of(s1) == map_of(s0).insert(owner, user),
{
    let n = s0.len() as int;
    assert(forall|j: int| 0 <= j < n ==> s1[j] == s0[j]);
    assert(s1[n].owner == owner);
    assert forall|i: int, j: int| 0 <= i < j < s1.len() implies (#[trigger] s1[i]).owner != (
    #[trigger] s1[j]).owner by {
        if j < n {
        } else {
            assert(s1[i].owner == s0[i].owner);
            if s1[i].owner == owner {
                assert(seq_has(s0, owner));
            }
        }
    }
    assert_maps_equal!(map_of(s1), map_of(s0).insert(owner, user), o => {
        if o == owner {
            assert(s1[n].owner == o);
            assert(seq_has(s1, o));
            lemma_map_at(s1, n);
        } else {
            if seq_has(s1, o) {
                let j = seq_index_of(s1, o);
                assert(0 <= j < s1.len() && s1[j].owner == o);
                assert(j != n);
                assert(s0[j].owner == o);
                assert(seq_has(s0, o));
                lemma_map_at(s1, j);
                lemma_map_at(s0, j);
            } else {
                if seq_has(s0, o) {
                    let j = seq_index_of(s0, o);
                    assert(0 <= j < s0.len() && s0[j].owner == o);
                    assert(s1[j].owner == o);
                    assert(false);
                }
            }
        }
    });
}

/// Dropping the slot that holds `owner` removes it from the map.
proof fn lemma_removed_map(s0: Seq<Entry>, s1: Seq<Entry>, i: int, owner: AccountId)
    requires
        seq_unique(s0),
        0 <= i < s0.len(),
        s0[i].owner == owner,
        s1 == s0.remove(i),
    ensures
        seq_unique(s1),
        map_of(s1) == map_of(s0).remove(owner),
{
    let n = s0.len() as int;
    assert(forall|j: int| 0 <= j < i ==> s1[j] == s0[j]);
    assert(forall|j: int| i <= j < n - 1 ==> s1[j] == s0[j + 1]);
    assert forall|a: int, b: int| 0 <= a < b < s1.len() implies (#[trigger] s1[a]).owner != (
    #[trigger] s1[b]).owner by {
        let a0 = if a < i {
            a
        } else {
            a + 1
        };
        let b0 = if b < i {
            b
        } else {
            b + 1
        };
        assert(s1[a] == s0[a0]);
        assert(s1[b] == s0[b0]);
    }
    assert_maps_equal!(map_of(s1), map_of(s0).remove(owner), o => {
        if seq_has(s1, o) {
            let j = seq_index_of(s1, o);
            assert(0 <= j < s1.len() && s1[j].owner == o);
            let j0 = if j < i {
                j
            } else {
                j + 1
            };
            assert(s1[j] == s0[j0]);
            assert(j0 != i);
            assert(o != owner);
            assert(seq_has(s0, o));
            lemma_map_at(s1, j);
            lemma_map_at(s0, j0);
        } else {
            if o != owner && seq_has(s0, o) {
                let j0 = seq_index_of(s0, o);
                assert(0 <= j0 < s0.len() && s0[j0].owner == o);
                assert(j0 != i);
                if j0 < i {
                    assert(s1[j0].owner == o);
                } else {
                    assert(s1[j0 - 1].owner == o);
                }
                assert(seq_has(s1, o));
                assert(false);
            }
        }
    });
}

} // verus!
