//! One initialize or increment attempt as a state machine. Each call takes
//! the outcome of the outside work the previous step asked for (fetching a
//! path, proving, submitting) and says what to do next. The store's records
//! change in one place only: when the ledger has confirmed the transaction.

use vstd::prelude::*;
use crate::assembler::{
    assemble, finalize, increment_error, increment_witness, initial_witness, sides, witness_valid, Action, ActionProofs,
    Transaction, TransitionWitness,
};
use crate::error::{ProofFailure, TransitionError};
use crate::orchestrator::{claimed, committed, increment_granted, lease_end, lease_live, released, Claim, Orchestrator};
use crate::path::{translated, LedgerNode, TREE_DEPTH};
use crate::resource::{is_fresh_counter, is_increment, Resource, SpendingKey};
use crate::store::{slot_of, Record, SlotState};

verus! {

/// What an attempt sets out to do.
#[derive(Debug, Clone, Copy, PartialEq, Eq)]
pub enum SessionKind {
    /// Create a counter at zero, bound to `key`.
    Initialize { kind_ref: [u8; 32], key: SpendingKey, key_commitment: [u8; 32], nonce: [u8; 32] },
    /// Increment the stored counter, under a fresh `nonce`.
    Increment { nonce: [u8; 32] },
}

#[derive(Debug, Clone, Copy, PartialEq, Eq, Structural)]
pub enum Stage {
    /// Not started.
    Ready,
    /// Waiting for the authentication path of the consumed resource.
    Fetching,
    /// Waiting for the proof backend.
    Proving,
    /// Waiting for the ledger.
    Submitting,
    /// Done, successfully or not.
    Finished,
}

/// What the caller does next.
#[derive(Debug)]
pub enum Step {
    /// Fetch the authentication path of this resource's commitment.
    FetchPath(Resource),
    /// Prove the session's witness.
    Prove,
    /// Submit the session's transaction.
    Submit,
    /// The attempt is over, with this outcome.
    Finished(Result<[u8; 32], TransitionError>),
}

pub struct Session {
    account: String,
    kind: SessionKind,
    stage: Stage,
    claim: Option<Claim>,
    witness: Option<TransitionWitness>,
    transaction: Option<Transaction>,
}

/// Whether every account keeps its record from `a` to `b`.
pub open spec fn records_kept(a: Map<Seq<char>, SlotState>, b: Map<Seq<char>, SlotState>) -> bool {
    forall|k: Seq<char>| #[trigger] slot_of(b, k).record == slot_of(a, k).record
}

/// The nonce the created resource is to carry.
pub open spec fn kind_nonce(kind: SessionKind) -> [u8; 32] {
    match kind {
        SessionKind::Initialize { nonce, .. } => nonce,
        SessionKind::Increment { nonce } => nonce,
    }
}

/// Whether `w` is the witness an attempt of `kind` that started from `base`
/// sets out to prove. An initialization consumes nothing and creates the
/// fresh counter it asked for, bound to its key. An increment consumes the
/// record it started from and creates its increment under the session's
/// nonce, bound to the same key.
pub open spec fn intended(kind: SessionKind, base: Option<Record>, w: TransitionWitness) -> bool {
    match kind {
        SessionKind::Initialize { kind_ref, key, key_commitment, nonce } => {
            &&& w.consumed is None
            &&& w.path@.len() == 0
            &&& w.created.key == key
            &&& is_fresh_counter(w.created.resource, kind_ref, nonce, key_commitment)
        },
        SessionKind::Increment { nonce } => {
            &&& base is Some
            &&& w.consumed == base
            &&& w.path@.len() == TREE_DEPTH
            &&& w.created.key == base->Some_0.key
            &&& is_increment(base->Some_0.resource, w.created.resource)
            &&& w.created.resource.nonce == nonce
        },
    }
}

/// The single action assembled from `p`.
pub open spec fn action_of(p: ActionProofs) -> Action {
    Action {
        compliance_proof: p.compliance_proof,
        instance: p.instance,
        logic_proofs: p.logic_proofs,
        balance_witness: p.balance_witness,
    }
}

/// Giving a lease back changes no record.
pub proof fn lemma_release_keeps_records(m: Map<Seq<char>, SlotState>, k: Seq<char>, ticket: u64)
    ensures
        records_kept(m, released(m, k, ticket)),
{
    let r = released(m, k, ticket);
    assert forall|j: Seq<char>| #[trigger] slot_of(r, j).record == slot_of(m, j).record by {
        if j != k {
            assert(r.contains_key(j) == m.contains_key(j));
        }
    }
}

impl Session {
    pub closed spec fn spec_account(&self) -> Seq<char> {
        self.account@
    }

    pub closed spec fn spec_stage(&self) -> Stage {
        self.stage
    }

    pub closed spec fn spec_kind(&self) -> SessionKind {
        self.kind
    }

    /// The ticket of the session's lease, once it has one.
    pub closed spec fn spec_ticket(&self) -> u64 {
        self.claim->Some_0.ticket
    }

    /// The record the session started from, once it has claimed the account.
    pub closed spec fn spec_base(&self) -> Option<Record> {
        self.claim->Some_0.base
    }

    /// The witness to prove, once there is one.
    pub closed spec fn spec_witness(&self) -> Option<TransitionWitness> {
        self.witness
    }

    /// The transaction to submit, once there is one.
    pub closed spec fn spec_transaction(&self) -> Option<Transaction> {
        self.transaction
    }

    /// The record the session would store, once it has a witness.
    pub open spec fn spec_created(&self) -> Record {
        self.spec_witness()->Some_0.created
    }

    pub closed spec fn wf(&self) -> bool {
        &&& (self.stage == Stage::Fetching || self.stage == Stage::Proving || self.stage == Stage::Submitting) ==> {
            &&& self.claim is Some
            &&& self.claim->Some_0.account@ == self.account@
        }
        &&& self.stage == Stage::Fetching ==> self.claim->Some_0.base is Some && self.kind is Increment
        &&& (self.stage == Stage::Proving || self.stage == Stage::Submitting) ==> {
            &&& self.witness is Some
            &&& witness_valid(self.witness->Some_0)
            &&& intended(self.kind, self.claim->Some_0.base, self.witness->Some_0)
        }
        &&& self.stage == Stage::Submitting ==> self.transaction is Some
    }

    /// A session that will create a counter for `account`.
    pub fn initialize(
        account: &str,
        kind_ref: [u8; 32],
        key: SpendingKey,
        key_commitment: [u8; 32],
        nonce: [u8; 32],
    ) -> (r: Session)
        ensures
            r.wf(),
            r.spec_stage() == Stage::Ready,
            r.spec_account() == account@,
            r.spec_kind() == (SessionKind::Initialize { kind_ref, key, key_commitment, nonce }),
    {
        Session {
            account: account.to_owned(),
            kind: SessionKind::Initialize { kind_ref, key, key_commitment, nonce },
            stage: Stage::Ready,
            claim: None,
            witness: None,
            transaction: None,
        }
    }

    /// A session that will increment the counter of `account` under `nonce`.
    pub fn increment(account: &str, nonce: [u8; 32]) -> (r: Session)
        ensures
            r.wf(),
            r.spec_stage() == Stage::Ready,
            r.spec_account() == account@,
            r.spec_kind() == (SessionKind::Increment { nonce }),
    {
        Session {
            account: account.to_owned(),
            kind: SessionKind::Increment { nonce },
            stage: Stage::Ready,
            claim: None,
            witness: None,
            transaction: None,
        }
    }

    pub fn stage(&self) -> (r: Stage)
        ensures
            r == self.spec_stage(),
    {
        self.stage
    }

    /// The witness to prove, once there is one.
    pub fn witness(&self) -> (r: Option<&TransitionWitness>)
        ensures
            r is Some <==> self.spec_witness() is Some,
            r is Some ==> *r->Some_0 == self.spec_witness()->Some_0,
            self.wf() && (self.spec_stage() == Stage::Proving || self.spec_stage() == Stage::Submitting) ==> r is Some,
    {
        match &self.witness {
            Some(w) => Some(w),
            None => None,
        }
    }

    /// The transaction to submit, once there is one.
    pub fn transaction(&self) -> (r: Option<&Transaction>)
        ensures
            r is Some <==> self.spec_transaction() is Some,
            r is Some ==> *r->Some_0 == self.spec_transaction()->Some_0,
            self.wf() && self.spec_stage() == Stage::Submitting ==> r is Some,
    {
        match &self.transaction {
            Some(t) => Some(t),
            None => None,
        }
    }

    /// Ends the session with `error`, giving its lease back.
    fn fail(&mut self, orch: &mut Orchestrator, error: TransitionError) -> (r: Step)
        requires
            old(self).claim is Some,
            old(self).claim->Some_0.account@ == old(self).account@,
        ensures
            r == Step::Finished(Err(error)),
            final(self).spec_stage() == Stage::Finished,
            final(self).wf(),
            final(self).account == old(self).account,
            final(self).claim == old(self).claim,
            final(self).witness == old(self).witness,
            final(self).kind == old(self).kind,
            final(orch)@ == released(old(orch)@, old(self).account@, old(self).claim->Some_0.ticket),
            records_kept(old(orch)@, final(orch)@),
    {
        proof {
            lemma_release_keeps_records(orch@, self.account@, self.claim->Some_0.ticket);
        }
        let e = match &self.claim {
            Some(c) => orch.release(c, error),
            None => error,
        };
        self.stage = Stage::Finished;
        Step::Finished(Err(e))
    }

    /// Claims the account at time `now`. An increment then asks for the
    /// consumed resource's path; an initialization builds its witness, the
    /// fresh counter it asked for, and goes straight to proving. If the
    /// account cannot be claimed, the session ends and the store is left as
    /// it was.
    pub fn start(&mut self, orch: &mut Orchestrator, now: u64) -> (r: Step)
        requires
            old(self).wf(),
            old(self).spec_stage() == Stage::Ready,
        ensures
            final(self).wf(),
            final(self).spec_account() == old(self).spec_account(),
            final(self).spec_kind() == old(self).spec_kind(),
            records_kept(old(orch)@, final(orch)@),
            r is Finished ==> final(self).spec_stage() == Stage::Finished && final(orch)@ == old(orch)@,
            !(r is Finished) ==> final(orch)@ == claimed(
                old(orch)@,
                old(self).spec_account(),
                final(self).spec_ticket(),
                lease_end(now, old(orch).spec_lease_span()),
            ) && final(self).spec_base() == slot_of(old(orch)@, old(self).spec_account()).record,
            old(self).spec_kind() is Increment ==> {
                &&& slot_of(old(orch)@, old(self).spec_account()).record is None ==> r == Step::Finished(
                    Err(TransitionError::NotInitialized),
                )
                &&& slot_of(old(orch)@, old(self).spec_account()).record is Some && lease_live(
                    slot_of(old(orch)@, old(self).spec_account()),
                    now,
                ) ==> r == Step::Finished(Err(TransitionError::Concurrency))
                &&& increment_granted(old(orch)@, old(self).spec_account(), now) ==> {
                    &&& final(self).spec_stage() == Stage::Fetching
                    &&& r == Step::FetchPath(slot_of(old(orch)@, old(self).spec_account()).record->Some_0.resource)
                }
            },
            old(self).spec_kind() is Initialize ==> {
                &&& lease_live(slot_of(old(orch)@, old(self).spec_account()), now) ==> r == Step::Finished(
                    Err(TransitionError::Concurrency),
                )
                &&& !lease_live(slot_of(old(orch)@, old(self).spec_account()), now) ==> {
                    &&& r is Prove
                    &&& final(self).spec_stage() == Stage::Proving
                    &&& final(self).spec_witness() is Some
                    &&& intended(old(self).spec_kind(), final(self).spec_base(), final(self).spec_witness()->Some_0)
                }
            },
    {
        match self.kind {
            SessionKind::Increment { nonce } => {
                match orch.begin_increment(self.account.as_str(), now) {
                    Err(e) => {
                        self.stage = Stage::Finished;
                        Step::Finished(Err(e))
                    },
                    Ok(claim) => {
                        let base = claim.base;
                        self.claim = Some(claim);
                        self.stage = Stage::Fetching;
                        match base {
                            Some(b) => Step::FetchPath(b.resource),
                            None => Step::Prove,
                        }
                    },
                }
            },
            SessionKind::Initialize { kind_ref, key, key_commitment, nonce } => {
                match orch.begin_initialize(self.account.as_str(), now) {
                    Err(e) => {
                        self.stage = Stage::Finished;
                        Step::Finished(Err(e))
                    },
                    Ok(claim) => {
                        self.claim = Some(claim);
                        self.witness = Some(initial_witness(kind_ref, nonce, key, key_commitment));
                        self.stage = Stage::Proving;
                        Step::Prove
                    },
                }
            },
        }
    }

    /// Takes the outcome of the path fetch. With a path of the tree's depth,
    /// a counter below its largest value and a nonce of its own, the session
    /// builds the increment witness and asks for proving. A failed fetch, or
    /// any of those conditions broken, ends the session with that error and
    /// gives the lease back.
    pub fn path_fetched(&mut self, orch: &mut Orchestrator, raw: Result<Vec<LedgerNode>, TransitionError>) -> (r: Step)
        requires
            old(self).wf(),
            old(self).spec_stage() == Stage::Fetching,
        ensures
            final(self).wf(),
            final(self).spec_account() == old(self).spec_account(),
            final(self).spec_kind() == old(self).spec_kind(),
            final(self).spec_ticket() == old(self).spec_ticket(),
            final(self).spec_base() == old(self).spec_base(),
            records_kept(old(orch)@, final(orch)@),
            r is Finished ==> final(self).spec_stage() == Stage::Finished && final(orch)@ == released(
                old(orch)@,
                old(self).spec_account(),
                old(self).spec_ticket(),
            ),
            raw is Err ==> r == Step::Finished(Err(raw->Err_0)),
            raw is Ok && increment_error(old(self).spec_base()->Some_0, raw->Ok_0@, kind_nonce(old(self).spec_kind())) is Some
                ==> r == Step::Finished(
                Err(increment_error(old(self).spec_base()->Some_0, raw->Ok_0@, kind_nonce(old(self).spec_kind()))->Some_0),
            ),
            raw is Ok && increment_error(old(self).spec_base()->Some_0, raw->Ok_0@, kind_nonce(old(self).spec_kind())) is None
                ==> {
                &&& r is Prove
                &&& final(self).spec_stage() == Stage::Proving
                &&& final(orch)@ == old(orch)@
                &&& final(self).spec_witness() is Some
                &&& final(self).spec_witness()->Some_0.path@ == translated(raw->Ok_0@)
                &&& intended(old(self).spec_kind(), old(self).spec_base(), final(self).spec_witness()->Some_0)
            },
    {
        let nonce = match self.kind {
            SessionKind::Increment { nonce } => nonce,
            SessionKind::Initialize { nonce, .. } => nonce,
        };
        let base = match &self.claim {
            Some(c) => c.base,
            None => None,
        };
        let raw = match raw {
            Ok(p) => p,
            Err(e) => return self.fail(orch, e),
        };
        match base {
            Some(b) => match increment_witness(&b, &raw, nonce) {
                Ok(w) => {
                    self.witness = Some(w);
                    self.stage = Stage::Proving;
                    Step::Prove
                },
                Err(e) => self.fail(orch, e),
            },
            None => self.fail(orch, TransitionError::NotInitialized),
        }
    }

    /// Takes the outcome of proving. Artifacts with one logic proof per side
    /// of the witness are assembled into the session's one-action
    /// transaction, bound with `balance_proof`, and the session asks for
    /// submission. Artifacts with another number of logic proofs, or a failed
    /// proof, end the session and give the lease back.
    pub fn proven(&mut self, orch: &mut Orchestrator, proofs: Result<ActionProofs, TransitionError>, balance_proof: Vec<u8>) -> (r: Step)
        requires
            old(self).wf(),
            old(self).spec_stage() == Stage::Proving,
        ensures
            final(self).wf(),
            final(self).spec_account() == old(self).spec_account(),
            final(self).spec_kind() == old(self).spec_kind(),
            final(self).spec_ticket() == old(self).spec_ticket(),
            final(self).spec_base() == old(self).spec_base(),
            final(self).spec_witness() == old(self).spec_witness(),
            records_kept(old(orch)@, final(orch)@),
            r is Finished ==> final(self).spec_stage() == Stage::Finished && final(orch)@ == released(
                old(orch)@,
                old(self).spec_account(),
                old(self).spec_ticket(),
            ),
            proofs is Err ==> r == Step::Finished(Err(proofs->Err_0)),
            proofs is Ok && proofs->Ok_0.logic_proofs@.len() != sides(old(self).spec_witness()->Some_0) ==> r
                == Step::Finished(Err(TransitionError::ProofGeneration(ProofFailure::Rejected))),
            proofs is Ok && proofs->Ok_0.logic_proofs@.len() == sides(old(self).spec_witness()->Some_0) ==> {
                &&& r is Submit
                &&& final(self).spec_stage() == Stage::Submitting
                &&& final(orch)@ == old(orch)@
                &&& final(self).spec_transaction() is Some
                &&& final(self).spec_transaction()->Some_0.actions@ == seq![action_of(proofs->Ok_0)]
                &&& final(self).spec_transaction()->Some_0.balance_proof == balance_proof
            },
    {
        let proofs = match proofs {
            Ok(p) => p,
            Err(e) => return self.fail(orch, e),
        };
        let assembled = match &self.witness {
            Some(w) => assemble(w, proofs),
            None => Err(TransitionError::NotInitialized),
        };
        match assembled {
            Ok(action) => {
                let mut actions: Vec<Action> = Vec::new();
                actions.push(action);
                proof {
                    assert(actions@ =~= seq![action]);
                }
                self.transaction = Some(finalize(actions, balance_proof));
                self.stage = Stage::Submitting;
                Step::Submit
            },
            Err(e) => self.fail(orch, e),
        }
    }

    /// Takes the ledger's answer. A confirmation commits the created record,
    /// if the account's record is still the one the session started from; a
    /// failure gives the lease back and leaves every record as it was.
    pub fn submitted(&mut self, orch: &mut Orchestrator, outcome: Result<[u8; 32], TransitionError>) -> (r: Step)
        requires
            old(self).wf(),
            old(self).spec_stage() == Stage::Submitting,
        ensures
            final(self).wf(),
            final(self).spec_stage() == Stage::Finished,
            old(self).spec_witness() is Some,
            intended(old(self).spec_kind(), old(self).spec_base(), old(self).spec_witness()->Some_0),
            outcome is Err ==> {
                &&& r == Step::Finished(Err(outcome->Err_0))
                &&& final(orch)@ == released(old(orch)@, old(self).spec_account(), old(self).spec_ticket())
                &&& records_kept(old(orch)@, final(orch)@)
            },
            outcome is Ok ==> {
                &&& final(orch)@ == committed(
                    old(orch)@,
                    old(self).spec_account(),
                    old(self).spec_ticket(),
                    old(self).spec_base(),
                    old(self).spec_created(),
                )
                &&& slot_of(old(orch)@, old(self).spec_account()).record == old(self).spec_base() ==> r == Step::Finished(
                    Ok(outcome->Ok_0),
                )
                &&& slot_of(old(orch)@, old(self).spec_account()).record != old(self).spec_base() ==> r == Step::Finished(
                    Err(TransitionError::Concurrency),
                )
            },
    {
        match outcome {
            Err(e) => self.fail(orch, e),
            Ok(tx) => {
                let r = match (&self.claim, &self.witness) {
                    (Some(c), Some(w)) => orch.commit_witness(c, w, tx),
                    _ => Err(TransitionError::Concurrency),
                };
                self.stage = Stage::Finished;
                Step::Finished(r)
            },
        }
    }
}

} // verus!
