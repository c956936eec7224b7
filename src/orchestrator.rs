//! The transition orchestrator: the decisions of an initialize or increment
//! attempt, around the outside work of proving and submitting.
//!
//! An attempt first claims the account with a lease, so that attempts on one
//! account are serialized. The store's record changes only in `commit`, which
//! the caller makes once the ledger has confirmed the transaction, and only if
//! the record is still the one the attempt started from. Any failure ends in
//! `release`, which gives the lease back and leaves the record as it was. A
//! lease that is not given back expires, so an abandoned attempt never locks
//! an account for good.

use vstd::prelude::*;
use crate::assembler::TransitionWitness;
use crate::error::TransitionError;
use crate::resource::{is_increment, same_bytes, Resource, SpendingKey};
use crate::store::{slot_of, AccountStore, Lease, Record, SlotState};

verus! {

/// Where an account stands in its lifecycle.
#[derive(Debug, Clone, Copy, PartialEq, Eq, Structural)]
pub enum AccountPhase {
    /// Never initialized.
    Uninitialized,
    /// Initialized, and no attempt holds it.
    Ready,
    /// An attempt holds it; it was not initialized before that attempt.
    PendingInitialization,
    /// An attempt holds it and its stored record stays authoritative.
    Pending,
}

/// An attempt's hold on an account: the ticket of its lease and the record it
/// started from.
pub struct Claim {
    pub account: String,
    pub ticket: u64,
    pub base: Option<Record>,
}

/// Whether an attempt holds the account at time `now`.
pub open spec fn lease_live(st: SlotState, now: u64) -> bool {
    st.lease is Some && now < st.lease->Some_0.expires_at
}

/// Whether the account's lease carries `ticket`.
pub open spec fn held_by(st: SlotState, ticket: u64) -> bool {
    st.lease is Some && st.lease->Some_0.ticket == ticket
}

/// The end of a lease taken at `now` for `span`, at the end of time at most.
pub open spec fn lease_end(now: u64, span: u64) -> u64 {
    if now + span > u64::MAX {
        u64::MAX
    } else {
        (now + span) as u64
    }
}

/// The store after an attempt with `ticket` claims account `k` until `expires_at`.
pub open spec fn claimed(m: Map<Seq<char>, SlotState>, k: Seq<char>, ticket: u64, expires_at: u64) -> Map<Seq<char>, SlotState> {
    m.insert(k, SlotState { record: slot_of(m, k).record, lease: Some(Lease { ticket, expires_at }) })
}

/// The store after the attempt with `ticket` gives account `k` back; a lease
/// the attempt no longer holds stays.
pub open spec fn released(m: Map<Seq<char>, SlotState>, k: Seq<char>, ticket: u64) -> Map<Seq<char>, SlotState> {
    if held_by(slot_of(m, k), ticket) {
        m.insert(k, SlotState { record: slot_of(m, k).record, lease: None })
    } else {
        m
    }
}

/// The store after the attempt with `ticket`, started from `base`, commits
/// `created`: the record changes only if it is still `base`.
pub open spec fn committed(
    m: Map<Seq<char>, SlotState>,
    k: Seq<char>,
    ticket: u64,
    base: Option<Record>,
    created: Record,
) -> Map<Seq<char>, SlotState> {
    let rel = released(m, k, ticket);
    if slot_of(m, k).record == base {
        rel.insert(k, SlotState { record: Some(created), lease: slot_of(rel, k).lease })
    } else {
        rel
    }
}

/// Whether an increment of account `k` may start at time `now`.
pub open spec fn increment_granted(m: Map<Seq<char>, SlotState>, k: Seq<char>, now: u64) -> bool {
    slot_of(m, k).record is Some && !lease_live(slot_of(m, k), now)
}

pub struct Orchestrator {
    store: AccountStore,
    next_ticket: u64,
    lease_span: u64,
}

impl View for Orchestrator {
    type V = Map<Seq<char>, SlotState>;

    closed spec fn view(&self) -> Map<Seq<char>, SlotState> {
        self.store@
    }
}

fn same_record(a: &Record, b: &Record) -> (r: bool)
    ensures
        r == (*a == *b),
{
    let x = &a.resource;
    let y = &b.resource;
    let r = same_bytes(&x.kind_ref, &y.kind_ref) && x.quantity == y.quantity && same_bytes(&x.value, &y.value)
        && x.ephemeral == y.ephemeral && same_bytes(&x.nonce, &y.nonce) && same_bytes(
        &x.key_commitment,
        &y.key_commitment,
    ) && same_bytes(&a.key.secret, &b.key.secret);
    proof {
        if r {
            assert(x.kind_ref == y.kind_ref);
            assert(x.value == y.value);
            assert(x.nonce == y.nonce);
            assert(x.key_commitment == y.key_commitment);
            assert(a.key.secret == b.key.secret);
            assert(a.key == b.key);
        } else if x.kind_ref@ != y.kind_ref@ {
            assert(x.kind_ref != y.kind_ref);
        } else if x.value@ != y.value@ {
            assert(x.value != y.value);
        } else if x.nonce@ != y.nonce@ {
            assert(x.nonce != y.nonce);
        } else if x.key_commitment@ != y.key_commitment@ {
            assert(x.key_commitment != y.key_commitment);
        } else if a.key.secret@ != b.key.secret@ {
            assert(a.key.secret != b.key.secret);
        }
    }
    r
}

fn same_base(a: &Option<Record>, b: &Option<Record>) -> (r: bool)
    ensures
        r == (*a == *b),
{
    match (a, b) {
        (Some(x), Some(y)) => same_record(x, y),
        (None, None) => true,
        _ => false,
    }
}

impl Orchestrator {
    /// The time an unreturned lease holds an account.
    pub closed spec fn spec_lease_span(&self) -> u64 {
        self.lease_span
    }

    /// An orchestrator over an empty store whose leases last `lease_span`.
    pub fn new(lease_span: u64) -> (r: Orchestrator)
        ensures
            r@ == Map::<Seq<char>, SlotState>::empty(),
            r.spec_lease_span() == lease_span,
    {
        Orchestrator { store: AccountStore::new(), next_ticket: 0, lease_span }
    }

    /// What the store knows of `account`.
    pub fn state_of(&self, account: &str) -> (r: SlotState)
        ensures
            r == slot_of(self@, account@),
    {
        self.store.state_of(account)
    }

    /// The resource and key stored for `account`, if it has been initialized.
    pub fn get(&self, account: &str) -> (r: Option<(Resource, SpendingKey)>)
        ensures
            match slot_of(self@, account@).record {
                Some(rec) => r == Some((rec.resource, rec.key)),
                None => r is None,
            },
    {
        self.store.get(account)
    }

    /// Where `account` stands at time `now`.
    pub fn phase(&self, account: &str, now: u64) -> (r: AccountPhase)
        ensures
            r == (if lease_live(slot_of(self@, account@), now) {
                if slot_of(self@, account@).record is Some {
                    AccountPhase::Pending
                } else {
                    AccountPhase::PendingInitialization
                }
            } else if slot_of(self@, account@).record is Some {
                AccountPhase::Ready
            } else {
                AccountPhase::Uninitialized
            }),
    {
        let st = self.store.state_of(account);
        let live = match st.lease {
            Some(l) => now < l.expires_at,
            None => false,
        };
        if live {
            if st.record.is_some() {
                AccountPhase::Pending
            } else {
                AccountPhase::PendingInitialization
            }
        } else if st.record.is_some() {
            AccountPhase::Ready
        } else {
            AccountPhase::Uninitialized
        }
    }

    fn take_lease(&mut self, account: &str, st: SlotState, now: u64) -> (r: Claim)
        requires
            st == slot_of(old(self)@, account@),
        ensures
            r.account@ == account@,
            r.base == st.record,
            final(self)@ == claimed(old(self)@, account@, r.ticket, lease_end(now, old(self).spec_lease_span())),
            final(self).spec_lease_span() == old(self).spec_lease_span(),
    {
        let ticket = self.next_ticket;
        self.next_ticket = if ticket == u64::MAX {
            0
        } else {
            ticket + 1
        };
        let expires_at = if now > u64::MAX - self.lease_span {
            u64::MAX
        } else {
            now + self.lease_span
        };
        self.store.set_state(account, SlotState { record: st.record, lease: Some(Lease { ticket, expires_at }) });
        Claim { account: account.to_owned(), ticket, base: st.record }
    }

    /// Claims `account` for an initialization at time `now`.
    pub fn begin_initialize(&mut self, account: &str, now: u64) -> (r: Result<Claim, TransitionError>)
        ensures
            final(self).spec_lease_span() == old(self).spec_lease_span(),
            lease_live(slot_of(old(self)@, account@), now) ==> {
                &&& r == Err::<Claim, TransitionError>(TransitionError::Concurrency)
                &&& final(self)@ == old(self)@
            },
            !lease_live(slot_of(old(self)@, account@), now) ==> {
                &&& r is Ok
                &&& r->Ok_0.account@ == account@
                &&& r->Ok_0.base == slot_of(old(self)@, account@).record
                &&& final(self)@ == claimed(
                    old(self)@,
                    account@,
                    r->Ok_0.ticket,
                    lease_end(now, old(self).spec_lease_span()),
                )
            },
    {
        let st = self.store.state_of(account);
        if let Some(l) = st.lease {
            if now < l.expires_at {
                return Err(TransitionError::Concurrency);
            }
        }
        Ok(self.take_lease(account, st, now))
    }

    /// Claims `account` for an increment at time `now`.
    pub fn begin_increment(&mut self, account: &str, now: u64) -> (r: Result<Claim, TransitionError>)
        ensures
            final(self).spec_lease_span() == old(self).spec_lease_span(),
            slot_of(old(self)@, account@).record is None ==> {
                &&& r == Err::<Claim, TransitionError>(TransitionError::NotInitialized)
                &&& final(self)@ == old(self)@
            },
            slot_of(old(self)@, account@).record is Some && lease_live(slot_of(old(self)@, account@), now) ==> {
                &&& r == Err::<Claim, TransitionError>(TransitionError::Concurrency)
                &&& final(self)@ == old(self)@
            },
            increment_granted(old(self)@, account@, now) ==> {
                &&& r is Ok
                &&& r->Ok_0.account@ == account@
                &&& r->Ok_0.base == slot_of(old(self)@, account@).record
                &&& final(self)@ == claimed(
                    old(self)@,
                    account@,
                    r->Ok_0.ticket,
                    lease_end(now, old(self).spec_lease_span()),
                )
            },
    {
        let st = self.store.state_of(account);
        if st.record.is_none() {
            return Err(TransitionError::NotInitialized);
        }
        if let Some(l) = st.lease {
            if now < l.expires_at {
                return Err(TransitionError::Concurrency);
            }
        }
        Ok(self.take_lease(account, st, now))
    }

    /// Ends a failed attempt: gives its lease back and returns its error.
    pub fn release(&mut self, claim: &Claim, error: TransitionError) -> (r: TransitionError)
        ensures
            r == error,
            final(self)@ == released(old(self)@, claim.account@, claim.ticket),
            final(self).spec_lease_span() == old(self).spec_lease_span(),
    {
        let st = self.store.state_of(claim.account.as_str());
        if let Some(l) = st.lease {
            if l.ticket == claim.ticket {
                self.store.set_state(claim.account.as_str(), SlotState { record: st.record, lease: None });
            }
        }
        error
    }

    /// Ends an attempt whose transaction the ledger confirmed as `tx`: stores
    /// `created` if the record is still the one the attempt started from, and
    /// gives the lease back. Were the record changed meanwhile, the store is
    /// left as it is and the attempt fails with a concurrency error.
    pub fn commit(&mut self, claim: &Claim, created: Record, tx: [u8; 32]) -> (r: Result<[u8; 32], TransitionError>)
        ensures
            final(self)@ == committed(old(self)@, claim.account@, claim.ticket, claim.base, created),
            final(self).spec_lease_span() == old(self).spec_lease_span(),
            slot_of(old(self)@, claim.account@).record == claim.base ==> r == Ok::<[u8; 32], TransitionError>(tx),
            slot_of(old(self)@, claim.account@).record != claim.base ==> r == Err::<[u8; 32], TransitionError>(
                TransitionError::Concurrency,
            ),
    {
        let st = self.store.state_of(claim.account.as_str());
        let unchanged = same_base(&st.record, &claim.base);
        let _ = self.release(claim, TransitionError::Concurrency);
        if unchanged {
            let rest = self.store.state_of(claim.account.as_str());
            self.store.set_state(claim.account.as_str(), SlotState { record: Some(created), lease: rest.lease });
            Ok(tx)
        } else {
            Err(TransitionError::Concurrency)
        }
    }

    /// Commits the created record of `witness`, as `commit` does.
    pub fn commit_witness(&mut self, claim: &Claim, witness: &TransitionWitness, tx: [u8; 32]) -> (r: Result<[u8; 32], TransitionError>)
        ensures
            final(self)@ == committed(old(self)@, claim.account@, claim.ticket, claim.base, witness.created),
            final(self).spec_lease_span() == old(self).spec_lease_span(),
            slot_of(old(self)@, claim.account@).record == claim.base ==> r == Ok::<[u8; 32], TransitionError>(tx),
            slot_of(old(self)@, claim.account@).record != claim.base ==> r == Err::<[u8; 32], TransitionError>(
                TransitionError::Concurrency,
            ),
    {
        self.commit(claim, witness.created, tx)
    }
}

/// The store after one increment attempt at `now` that fails once it has
/// claimed the account (an attempt that cannot claim changes nothing).
pub open spec fn after_failed_increment(m: Map<Seq<char>, SlotState>, k: Seq<char>, now: u64, span: u64, ticket: u64) -> Map<Seq<char>, SlotState> {
    if increment_granted(m, k, now) {
        released(claimed(m, k, ticket, lease_end(now, span)), k, ticket)
    } else {
        m
    }
}

/// The store after a run of failed increment attempts, each given by its
/// time and ticket.
pub open spec fn after_failed_increments(
    m: Map<Seq<char>, SlotState>,
    k: Seq<char>,
    attempts: Seq<(u64, u64)>,
    span: u64,
) -> Map<Seq<char>, SlotState>
    decreases attempts.len(),
{
    if attempts.len() == 0 {
        m
    } else {
        after_failed_increment(
            after_failed_increments(m, k, attempts.drop_last(), span),
            k,
            attempts.last().0,
            span,
            attempts.last().1,
        )
    }
}

/// However many increment attempts fail, every account keeps its record and
/// every other account its whole state; an account no attempt held before is
/// left exactly as it was.
pub proof fn lemma_failed_increments_keep_store(
    m: Map<Seq<char>, SlotState>,
    k: Seq<char>,
    attempts: Seq<(u64, u64)>,
    span: u64,
)
    ensures
        forall|j: Seq<char>| #[trigger] slot_of(after_failed_increments(m, k, attempts, span), j).record == slot_of(m, j).record,
        forall|j: Seq<char>| j != k ==> #[trigger] slot_of(after_failed_increments(m, k, attempts, span), j) == slot_of(m, j),
        slot_of(m, k).lease is None ==> after_failed_increments(m, k, attempts, span) == m,
    decreases attempts.len(),
{
    if attempts.len() > 0 {
        let prev = after_failed_increments(m, k, attempts.drop_last(), span);
        lemma_failed_increments_keep_store(m, k, attempts.drop_last(), span);
        let now = attempts.last().0;
        let ticket = attempts.last().1;
        if increment_granted(prev, k, now) {
            let c = claimed(prev, k, ticket, lease_end(now, span));
            assert(held_by(slot_of(c, k), ticket));
            let r = released(c, k, ticket);
            assert(r == c.insert(k, SlotState { record: slot_of(prev, k).record, lease: None }));
            assert forall|j: Seq<char>| #[trigger] slot_of(r, j).record == slot_of(m, j).record by {
                assert(slot_of(prev, j).record == slot_of(m, j).record);
                if j != k {
                    assert(r.contains_key(j) == prev.contains_key(j));
                }
            }
            assert forall|j: Seq<char>| j != k implies #[trigger] slot_of(r, j) == slot_of(m, j) by {
                assert(slot_of(prev, j) == slot_of(m, j));
                assert(r.contains_key(j) == prev.contains_key(j));
            }
            if slot_of(m, k).lease is None {
                assert(prev == m);
                assert(m.contains_key(k));
                assert(r =~= m);
            }
        }
    }
}

/// While one attempt's lease on an account lasts, no second increment of
/// that account can start: the second caller sees a concurrency error.
pub proof fn lemma_claims_serialize(m: Map<Seq<char>, SlotState>, k: Seq<char>, now: u64, later: u64, span: u64, ticket: u64)
    requires
        increment_granted(m, k, now),
        later < lease_end(now, span),
    ensures
        slot_of(claimed(m, k, ticket, lease_end(now, span)), k).record is Some,
        lease_live(slot_of(claimed(m, k, ticket, lease_end(now, span)), k), later),
        !increment_granted(claimed(m, k, ticket, lease_end(now, span)), k, later),
{
}

/// Two increments started from the same record commit at most once: after
/// the first commits its created record, the second leaves the store's
/// record as the first one wrote it.
pub proof fn lemma_commit_once(
    m: Map<Seq<char>, SlotState>,
    k: Seq<char>,
    first: u64,
    second: u64,
    base: Record,
    created: Record,
    other: Record,
)
    requires
        slot_of(m, k).record == Some(base),
        is_increment(base.resource, created.resource),
    ensures
        slot_of(committed(m, k, first, Some(base), created), k).record == Some(created),
        slot_of(committed(committed(m, k, first, Some(base), created), k, second, Some(base), other), k).record == Some(
            created,
        ),
{
    assert(created != base);
    let rel = released(m, k, first);
    let m1 = committed(m, k, first, Some(base), created);
    assert(m1 == rel.insert(k, SlotState { record: Some(created), lease: slot_of(rel, k).lease }));
    assert(m1.contains_key(k));
    assert(slot_of(m1, k).record == Some(created));
    let rel2 = released(m1, k, second);
    assert(slot_of(rel2, k).record == Some(created));
    assert(committed(m1, k, second, Some(base), other) == rel2);
}

} // verus!
