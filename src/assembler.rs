//! Transition witnesses and the assembly of proven actions into transactions.
//!
//! The proof backend itself lies outside the library: the library builds the
//! witness the backend is given, refuses a witness that breaks the counter's
//! rules before any proving work is spent on it, and puts the backend's
//! artifacts together in the order the ledger expects.

use vstd::prelude::*;
use crate::error::{ProofFailure, TransitionError};
use crate::path::{translate, translated, LedgerNode, PathNode, TREE_DEPTH};
use crate::resource::{increment, is_fresh_counter, is_increment, new_counter, same_bytes, same_counter_line, Resource, SpendingKey, MAX_COUNTER};
use crate::store::Record;

verus! {

/// Everything the proof backend needs to prove one transition: the consumed
/// record (none when a counter is created), the authentication path of the
/// consumed resource, and the created record.
pub struct TransitionWitness {
    pub consumed: Option<Record>,
    pub path: Vec<PathNode>,
    pub created: Record,
}

/// The first rule a witness breaks, if any.
pub open spec fn witness_error(w: TransitionWitness) -> Option<TransitionError> {
    match w.consumed {
        None => if w.created.resource.spec_counter_value() != 0 {
            Some(TransitionError::ProofGeneration(ProofFailure::InitialValueNotZero))
        } else {
            None
        },
        Some(c) => if w.path@.len() != TREE_DEPTH {
            Some(TransitionError::MalformedPath { expected: TREE_DEPTH, found: w.path@.len() as usize })
        } else if !same_counter_line(c.resource, w.created.resource) || w.created.key != c.key {
            Some(TransitionError::ProofGeneration(ProofFailure::KindMismatch))
        } else if w.created.resource.spec_counter_value() != c.resource.spec_counter_value() + 1 {
            Some(TransitionError::ProofGeneration(ProofFailure::ValueNotIncremented))
        } else if w.created.resource.nonce@ == c.resource.nonce@ {
            Some(TransitionError::ProofGeneration(ProofFailure::NonceReused))
        } else {
            None
        },
    }
}

/// A witness that obeys the counter's rules.
pub open spec fn witness_valid(w: TransitionWitness) -> bool {
    witness_error(w) is None
}

/// The witness that creates a counter at zero, bound to `key`.
pub fn initial_witness(kind_ref: [u8; 32], nonce: [u8; 32], key: SpendingKey, key_commitment: [u8; 32]) -> (r: TransitionWitness)
    ensures
        r.consumed is None,
        r.path@.len() == 0,
        r.created.key == key,
        is_fresh_counter(r.created.resource, kind_ref, nonce, key_commitment),
        witness_valid(r),
{
    let resource = new_counter(kind_ref, nonce, key_commitment);
    TransitionWitness { consumed: None, path: Vec::new(), created: Record { resource, key } }
}

/// Why no increment witness can be made from `base`, the ledger path `raw`
/// and `nonce`, if there is a reason.
pub open spec fn increment_error(base: Record, raw: Seq<LedgerNode>, nonce: [u8; 32]) -> Option<TransitionError> {
    if raw.len() != TREE_DEPTH {
        Some(TransitionError::MalformedPath { expected: TREE_DEPTH, found: raw.len() as usize })
    } else if base.resource.spec_counter_value() >= MAX_COUNTER {
        Some(TransitionError::ProofGeneration(ProofFailure::CounterOverflow))
    } else if nonce@ == base.resource.nonce@ {
        Some(TransitionError::ProofGeneration(ProofFailure::NonceReused))
    } else {
        None
    }
}

/// The witness that increments `base`, given the consumed resource's
/// authentication path as the ledger reports it and a fresh nonce.
pub fn increment_witness(base: &Record, raw: &Vec<LedgerNode>, nonce: [u8; 32]) -> (r: Result<TransitionWitness, TransitionError>)
    ensures
        raw@.len() != TREE_DEPTH ==> r == Err::<TransitionWitness, TransitionError>(
            TransitionError::MalformedPath { expected: TREE_DEPTH, found: raw@.len() as usize },
        ),
        raw@.len() == TREE_DEPTH && base.resource.spec_counter_value() == MAX_COUNTER ==> r
            == Err::<TransitionWitness, TransitionError>(TransitionError::ProofGeneration(ProofFailure::CounterOverflow)),
        raw@.len() == TREE_DEPTH && base.resource.spec_counter_value() < MAX_COUNTER && nonce@ == base.resource.nonce@
            ==> r == Err::<TransitionWitness, TransitionError>(TransitionError::ProofGeneration(ProofFailure::NonceReused)),
        raw@.len() == TREE_DEPTH && base.resource.spec_counter_value() < MAX_COUNTER && nonce@ != base.resource.nonce@ ==> {
            &&& r is Ok
            &&& r->Ok_0.consumed == Some(*base)
            &&& r->Ok_0.path@ == translated(raw@)
            &&& r->Ok_0.created.key == base.key
            &&& r->Ok_0.created.resource.nonce == nonce
            &&& is_increment(base.resource, r->Ok_0.created.resource)
            &&& witness_valid(r->Ok_0)
        },
        r is Ok ==> witness_valid(r->Ok_0) && r->Ok_0.consumed == Some(*base),
        match increment_error(*base, raw@, nonce) {
            Some(e) => r == Err::<TransitionWitness, TransitionError>(e),
            None => r is Ok,
        },
{
    proof {
        crate::resource::lemma_counter_bound(base.resource);
    }
    let path = match translate(raw, TREE_DEPTH) {
        Ok(p) => p,
        Err(e) => return Err(e),
    };
    let resource = match increment(&base.resource, nonce) {
        Ok(r) => r,
        Err(e) => return Err(e),
    };
    Ok(TransitionWitness { consumed: Some(*base), path, created: Record { resource, key: base.key } })
}

fn same_key(a: &SpendingKey, b: &SpendingKey) -> (r: bool)
    ensures
        r == (*a == *b),
{
    let r = same_bytes(&a.secret, &b.secret);
    proof {
        if r {
            assert(a.secret == b.secret);
        }
    }
    r
}

fn same_line(base: &Resource, r: &Resource) -> (b: bool)
    ensures
        b == same_counter_line(*base, *r),
{
    if !same_bytes(&base.kind_ref, &r.kind_ref) || base.quantity != r.quantity || base.ephemeral != r.ephemeral
        || !same_bytes(&base.key_commitment, &r.key_commitment) {
        proof {
            if base.kind_ref@ != r.kind_ref@ {
                assert(base.kind_ref != r.kind_ref);
            }
            if base.key_commitment@ != r.key_commitment@ {
                assert(base.key_commitment != r.key_commitment);
            }
        }
        return false;
    }
    proof {
        assert(base.kind_ref == r.kind_ref);
        assert(base.key_commitment == r.key_commitment);
    }
    let mut i: usize = 16;
    while i < 32
        invariant
            16 <= i <= 32,
            base.value@.len() == 32,
            r.value@.len() == 32,
            forall|k: int| 16 <= k < i ==> base.value@[k] == r.value@[k],
        decreases 32 - i,
    {
        if base.value[i] != r.value[i] {
            proof {
                assert(r.value@.subrange(16, 32)[i - 16] != base.value@.subrange(16, 32)[i - 16]);
            }
            return false;
        }
        i = i + 1;
    }
    proof {
        assert(r.value@.subrange(16, 32) =~= base.value@.subrange(16, 32));
    }
    true
}

/// Checks a witness against the counter's rules; the error is the first rule
/// broken, in the order of `witness_error`.
pub fn check_witness(w: &TransitionWitness) -> (r: Result<(), TransitionError>)
    ensures
        match witness_error(*w) {
            None => r is Ok,
            Some(e) => r == Err::<(), TransitionError>(e),
        },
{
    let created = w.created.resource.counter_value();
    match &w.consumed {
        None => {
            if created != 0 {
                return Err(TransitionError::ProofGeneration(ProofFailure::InitialValueNotZero));
            }
            Ok(())
        },
        Some(c) => {
            if w.path.len() != TREE_DEPTH {
                return Err(TransitionError::MalformedPath { expected: TREE_DEPTH, found: w.path.len() });
            }
            if !same_line(&c.resource, &w.created.resource) || !same_key(&w.created.key, &c.key) {
                return Err(TransitionError::ProofGeneration(ProofFailure::KindMismatch));
            }
            let old = c.resource.counter_value();
            if old == MAX_COUNTER || created != old + 1 {
                return Err(TransitionError::ProofGeneration(ProofFailure::ValueNotIncremented));
            }
            if same_bytes(&w.created.resource.nonce, &c.resource.nonce) {
                return Err(TransitionError::ProofGeneration(ProofFailure::NonceReused));
            }
            Ok(())
        },
    }
}

/// The public values a compliance proof attests.
#[derive(Debug, Clone, Copy, PartialEq, Eq)]
pub struct ComplianceInstance {
    /// The nullifier of the consumed resource; none when a counter is created.
    pub nullifier: Option<[u8; 32]>,
    /// The commitment of the created resource.
    pub commitment: [u8; 32],
    /// The tree root the consumed resource was proven against.
    pub root: [u8; 32],
}

/// What the proof backend returns for one witness.
pub struct ActionProofs {
    pub compliance_proof: Vec<u8>,
    pub instance: ComplianceInstance,
    /// One logic proof per side of the transition: the consumed side first.
    pub logic_proofs: Vec<Vec<u8>>,
    /// The blinding of the action's balance commitment.
    pub balance_witness: [u8; 32],
}

/// One proven transition.
pub struct Action {
    pub compliance_proof: Vec<u8>,
    pub instance: ComplianceInstance,
    pub logic_proofs: Vec<Vec<u8>>,
    pub balance_witness: [u8; 32],
}

/// The number of sides a witness has: the created one, and the consumed one
/// if there is one.
pub open spec fn sides(w: TransitionWitness) -> nat {
    if w.consumed is Some {
        2
    } else {
        1
    }
}

/// Puts the backend's artifacts for witness `w` together into an action.
/// A witness that breaks the counter's rules is refused with the rule it
/// breaks; artifacts without one logic proof per side are a rejection.
pub fn assemble(w: &TransitionWitness, proofs: ActionProofs) -> (r: Result<Action, TransitionError>)
    ensures
        witness_error(*w) is Some ==> r == Err::<Action, TransitionError>(witness_error(*w)->Some_0),
        witness_valid(*w) && proofs.logic_proofs@.len() != sides(*w) ==> r == Err::<Action, TransitionError>(
            TransitionError::ProofGeneration(ProofFailure::Rejected),
        ),
        witness_valid(*w) && proofs.logic_proofs@.len() == sides(*w) ==> r == Ok::<Action, TransitionError>(
            Action {
                compliance_proof: proofs.compliance_proof,
                instance: proofs.instance,
                logic_proofs: proofs.logic_proofs,
                balance_witness: proofs.balance_witness,
            },
        ),
        r is Ok ==> match w.consumed {
            Some(c) => w.created.resource.spec_counter_value() == c.resource.spec_counter_value() + 1,
            None => w.created.resource.spec_counter_value() == 0,
        },
{
    match check_witness(w) {
        Ok(()) => {},
        Err(e) => return Err(e),
    }
    let expected: usize = if w.consumed.is_some() {
        2
    } else {
        1
    };
    if proofs.logic_proofs.len() != expected {
        return Err(TransitionError::ProofGeneration(ProofFailure::Rejected));
    }
    Ok(Action {
        compliance_proof: proofs.compliance_proof,
        instance: proofs.instance,
        logic_proofs: proofs.logic_proofs,
        balance_witness: proofs.balance_witness,
    })
}

/// The balance witnesses of `actions`, in order: what the backend aggregates
/// into the transaction's balance proof.
pub fn balance_witnesses(actions: &Vec<Action>) -> (r: Vec<[u8; 32]>)
    ensures
        r@.len() == actions@.len(),
        forall|i: int| 0 <= i < actions@.len() ==> #[trigger] r@[i] == actions@[i].balance_witness,
{
    let mut out: Vec<[u8; 32]> = Vec::new();
    let mut i: usize = 0;
    while i < actions.len()
        invariant
            i <= actions@.len(),
            out@.len() == i,
            forall|k: int| 0 <= k < i ==> #[trigger] out@[k] == actions@[k].balance_witness,
        decreases actions@.len() - i,
    {
        out.push(actions[i].balance_witness);
        i = i + 1;
    }
    out
}

/// A transaction ready for the ledger.
pub struct Transaction {
    pub actions: Vec<Action>,
    pub balance_proof: Vec<u8>,
}

/// Binds `actions` with the balance proof the backend aggregated from their
/// balance witnesses. With no action there is nothing to balance, and the
/// balance proof is empty whatever was given.
pub fn finalize(actions: Vec<Action>, balance_proof: Vec<u8>) -> (r: Transaction)
    ensures
        r.actions == actions,
        actions@.len() > 0 ==> r.balance_proof == balance_proof,
        actions@.len() == 0 ==> r.balance_proof@.len() == 0,
{
    if actions.len() == 0 {
        Transaction { actions, balance_proof: Vec::new() }
    } else {
        Transaction { actions, balance_proof }
    }
}

/// The transaction with no action.
pub fn empty_transaction() -> (r: Transaction)
    ensures
        r.actions@.len() == 0,
        r.balance_proof@.len() == 0,
{
    finalize(Vec::new(), Vec::new())
}

/// A witness that consumes a resource is valid only if the created counter is
/// the consumed counter plus one; with the path and the counter line in
/// order, any other value is refused as not incremented.
pub proof fn lemma_only_successor_accepted(w: TransitionWitness)
    requires
        w.consumed is Some,
    ensures
        witness_valid(w) ==> w.created.resource.spec_counter_value() == w.consumed->Some_0.resource.spec_counter_value() + 1,
        w.created.resource.spec_counter_value() != w.consumed->Some_0.resource.spec_counter_value() + 1 ==> !witness_valid(w),
        w.path@.len() == TREE_DEPTH && same_counter_line(w.consumed->Some_0.resource, w.created.resource)
            && w.created.key == w.consumed->Some_0.key && w.created.resource.spec_counter_value()
            != w.consumed->Some_0.resource.spec_counter_value() + 1 ==> witness_error(w) == Some(
            TransitionError::ProofGeneration(ProofFailure::ValueNotIncremented),
        ),
{
}

} // verus!
