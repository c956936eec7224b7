//! The account state store: for each account, its current counter resource
//! with the key that spends it, and the lease of the attempt that holds it.

use vstd::prelude::*;
use crate::resource::{Resource, SpendingKey};

verus! {

/// A resource and its spending key, read and written as one pair.
#[derive(Debug, Clone, Copy, PartialEq, Eq)]
pub struct Record {
    pub resource: Resource,
    pub key: SpendingKey,
}

/// The hold of one attempt on an account, until `expires_at`.
#[derive(Debug, Clone, Copy, PartialEq, Eq, Structural)]
pub struct Lease {
    pub ticket: u64,
    pub expires_at: u64,
}

/// What the store knows of one account.
#[derive(Debug, Clone, Copy, PartialEq, Eq)]
pub struct SlotState {
    pub record: Option<Record>,
    pub lease: Option<Lease>,
}

/// The state of an account the store has never seen.
pub open spec fn empty_slot() -> SlotState {
    SlotState { record: None, lease: None }
}

/// The state of account `k` in the store's view.
pub open spec fn slot_of(m: Map<Seq<char>, SlotState>, k: Seq<char>) -> SlotState {
    if m.contains_key(k) {
        m[k]
    } else {
        empty_slot()
    }
}

pub struct Slot {
    pub account: String,
    pub state: SlotState,
}

/// The last slot for account `k`, if any.
pub open spec fn lookup(s: Seq<Slot>, k: Seq<char>) -> Option<SlotState>
    decreases s.len(),
{
    if s.len() == 0 {
        None
    } else if s.last().account@ == k {
        Some(s.last().state)
    } else {
        lookup(s.drop_last(), k)
    }
}

pub struct AccountStore {
    slots: Vec<Slot>,
}

proof fn lemma_lookup_at_last_match(s: Seq<Slot>, k: Seq<char>, i: int)
    requires
        0 <= i < s.len(),
        s[i].account@ == k,
        forall|j: int| i < j < s.len() ==> (#[trigger] s[j]).account@ != k,
    ensures
        lookup(s, k) == Some(s[i].state),
    decreases s.len(),
{
    if i < s.len() - 1 {
        lemma_lookup_at_last_match(s.drop_last(), k, i);
    }
}

proof fn lemma_lookup_none(s: Seq<Slot>, k: Seq<char>)
    requires
        forall|j: int| 0 <= j < s.len() ==> (#[trigger] s[j]).account@ != k,
    ensures
        lookup(s, k) is None,
    decreases s.len(),
{
    if s.len() > 0 {
        lemma_lookup_none(s.drop_last(), k);
    }
}

proof fn lemma_lookup_update(s: Seq<Slot>, i: int, slot: Slot, k: Seq<char>)
    requires
        0 <= i < s.len(),
        s[i].account@ == slot.account@,
        forall|j: int| i < j < s.len() ==> (#[trigger] s[j]).account@ != slot.account@,
    ensures
        lookup(s.update(i, slot), k) == if k == slot.account@ {
            Some(slot.state)
        } else {
            lookup(s, k)
        },
    decreases s.len(),
{
    let t = s.update(i, slot);
    if k == slot.account@ {
        lemma_lookup_at_last_match(t, k, i);
    } else if i < s.len() - 1 {
        assert(t.drop_last() =~= s.drop_last().update(i, slot));
        lemma_lookup_update(s.drop_last(), i, slot, k);
    } else {
        assert(t.drop_last() =~= s.drop_last());
    }
}

impl View for AccountStore {
    type V = Map<Seq<char>, SlotState>;

    closed spec fn view(&self) -> Map<Seq<char>, SlotState> {
        Map::new(|k: Seq<char>| lookup(self.slots@, k) is Some, |k: Seq<char>| lookup(self.slots@, k)->Some_0)
    }
}

impl AccountStore {
    /// A store that knows no account.
    pub fn new() -> (r: AccountStore)
        ensures
            r@ == Map::<Seq<char>, SlotState>::empty(),
    {
        let r = AccountStore { slots: Vec::new() };
        proof {
            assert(r@ =~= Map::<Seq<char>, SlotState>::empty());
        }
        r
    }

    /// The position of the last slot of `account`.
    fn find(&self, account: &String) -> (r: Option<usize>)
        ensures
            r is Some ==> {
                &&& r->Some_0 < self.slots@.len()
                &&& self.slots@[r->Some_0 as int].account@ == account@
                &&& forall|j: int| r->Some_0 < j < self.slots@.len() ==> (#[trigger] self.slots@[j]).account@ != account@
                &&& lookup(self.slots@, account@) == Some(self.slots@[r->Some_0 as int].state)
            },
            r is None ==> lookup(self.slots@, account@) is None,
    {
        let mut i: usize = self.slots.len();
        while i > 0
            invariant
                i <= self.slots@.len(),
                forall|j: int| i <= j < self.slots@.len() ==> (#[trigger] self.slots@[j]).account@ != account@,
            decreases i,
        {
            if self.slots[i - 1].account == *account {
                proof {
                    lemma_lookup_at_last_match(self.slots@, account@, i - 1);
                }
                return Some(i - 1);
            }
            i = i - 1;
        }
        proof {
            lemma_lookup_none(self.slots@, account@);
        }
        None
    }

    /// What the store knows of `account`.
    pub fn state_of(&self, account: &str) -> (r: SlotState)
        ensures
            r == slot_of(self@, account@),
    {
        let key = account.to_owned();
        match self.find(&key) {
            Some(i) => self.slots[i].state,
            None => SlotState { record: None, lease: None },
        }
    }

    /// Replaces what the store knows of `account`.
    pub fn set_state(&mut self, account: &str, state: SlotState)
        ensures
            final(self)@ == old(self)@.insert(account@, state),
    {
        let key = account.to_owned();
        match self.find(&key) {
            Some(i) => {
                let slot = Slot { account: key, state };
                proof {
                    let ghost s = self.slots@;
                    assert forall|k: Seq<char>| lookup(s.update(i as int, slot), k) == if k == slot.account@ {
                        Some(slot.state)
                    } else {
                        lookup(s, k)
                    } by {
                        lemma_lookup_update(s, i as int, slot, k);
                    }
                }
                self.slots.set(i, slot);
            },
            None => {
                let slot = Slot { account: key, state };
                proof {
                    let ghost s = self.slots@;
                    assert forall|k: Seq<char>| lookup(s.push(slot), k) == if k == slot.account@ {
                        Some(slot.state)
                    } else {
                        lookup(s, k)
                    } by {
                        assert(s.push(slot).drop_last() =~= s);
                    }
                }
                self.slots.push(slot);
            },
        }
        proof {
            assert(self@ =~= old(self)@.insert(account@, state));
        }
    }

    /// The resource and key stored for `account`, if it has been initialized.
    pub fn get(&self, account: &str) -> (r: Option<(Resource, SpendingKey)>)
        ensures
            match slot_of(self@, account@).record {
                Some(rec) => r == Some((rec.resource, rec.key)),
                None => r is None,
            },
    {
        match self.state_of(account).record {
            Some(rec) => Some((rec.resource, rec.key)),
            None => None,
        }
    }

    /// Stores `resource` and `key` for `account`, replacing any earlier pair;
    /// the account's lease is kept.
    pub fn put(&mut self, account: &str, resource: Resource, key: SpendingKey)
        ensures
            final(self)@ == old(self)@.insert(
                account@,
                SlotState {
                    record: Some(Record { resource, key }),
                    lease: slot_of(old(self)@, account@).lease,
                },
            ),
    {
        let st = self.state_of(account);
        self.set_state(account, SlotState { record: Some(Record { resource, key }), lease: st.lease });
    }
}

} // verus!
