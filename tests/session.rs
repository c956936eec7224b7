use counter_ledger::assembler::{ActionProofs, ComplianceInstance, TransitionWitness};
use counter_ledger::error::{ProofFailure, TransitionError};
use counter_ledger::orchestrator::{AccountPhase, Orchestrator};
use counter_ledger::path::{LedgerNode, TREE_DEPTH};
use counter_ledger::resource::SpendingKey;
use counter_ledger::session::{Session, Stage, Step};

const KIND: [u8; 32] = [0xc1u8; 32];

fn mock_proofs(w: &TransitionWitness) -> ActionProofs {
    let sides = if w.consumed.is_some() { 2 } else { 1 };
    ActionProofs {
        compliance_proof: vec![1u8; 4],
        instance: ComplianceInstance {
            nullifier: w.consumed.map(|c| c.resource.nonce),
            commitment: w.created.resource.nonce,
            root: [0u8; 32],
        },
        logic_proofs: vec![vec![2u8]; sides],
        balance_witness: [3u8; 32],
    }
}

fn full_path() -> Vec<LedgerNode> {
    (0..TREE_DEPTH).map(|i| LedgerNode { sibling: [i as u8; 32], direction_bit: true }).collect()
}

/// Runs a session to its end against a ledger that answers with `submit`.
fn run(
    o: &mut Orchestrator,
    mut s: Session,
    now: u64,
    path: Vec<LedgerNode>,
    submit: Result<[u8; 32], TransitionError>,
    submitted: &mut usize,
) -> Result<[u8; 32], TransitionError> {
    let mut step = s.start(o, now);
    let mut path = Some(path);
    loop {
        step = match step {
            Step::Finished(r) => {
                assert_eq!(s.stage(), Stage::Finished);
                return r;
            }
            Step::FetchPath(_) => s.path_fetched(o, Ok(path.take().unwrap())),
            Step::Prove => {
                let p = mock_proofs(s.witness().unwrap());
                s.proven(o, Ok(p), vec![9u8])
            }
            Step::Submit => {
                assert!(s.transaction().is_some());
                *submitted += 1;
                s.submitted(o, submit)
            }
        };
    }
}

fn init(o: &mut Orchestrator, account: &str, nonce: u8, n: &mut usize) {
    let s = Session::initialize(account, KIND, SpendingKey { secret: [7u8; 32] }, [8u8; 32], [nonce; 32]);
    run(o, s, 0, Vec::new(), Ok([1u8; 32]), n).unwrap();
}

#[test]
fn session_initialize_then_increment() {
    let mut o = Orchestrator::new(50);
    let mut n = 0;
    init(&mut o, "alice", 1, &mut n);
    assert_eq!(o.get("alice").unwrap().0.counter_value(), 0);
    let r = run(&mut o, Session::increment("alice", [2u8; 32]), 1, full_path(), Ok([2u8; 32]), &mut n);
    assert_eq!(r, Ok([2u8; 32]));
    let (res, key) = o.get("alice").unwrap();
    assert_eq!(res.counter_value(), 1);
    assert_eq!(res.nonce, [2u8; 32]);
    assert_eq!(key, SpendingKey { secret: [7u8; 32] });
    assert_eq!(n, 2);
    assert_eq!(o.phase("alice", 2), AccountPhase::Ready);
}

#[test]
fn session_increment_before_initialize() {
    let mut o = Orchestrator::new(50);
    let mut n = 0;
    let r = run(&mut o, Session::increment("bob", [2u8; 32]), 1, full_path(), Ok([2u8; 32]), &mut n);
    assert_eq!(r, Err(TransitionError::NotInitialized));
    assert_eq!(n, 0);
    assert_eq!(o.get("bob"), None);
}

#[test]
fn session_failures_keep_the_record() {
    let mut o = Orchestrator::new(50);
    let mut n = 0;
    init(&mut o, "alice", 1, &mut n);
    let before = o.state_of("alice");
    let fail = Err(TransitionError::Submission { retryable: true });
    for i in 0..3u8 {
        let r = run(&mut o, Session::increment("alice", [10 + i; 32]), 1, full_path(), fail, &mut n);
        assert_eq!(r, fail);
        assert_eq!(o.state_of("alice"), before);
    }
    let short: Vec<LedgerNode> = full_path().into_iter().take(3).collect();
    let r = run(&mut o, Session::increment("alice", [20u8; 32]), 1, short, Ok([5u8; 32]), &mut n);
    assert_eq!(r, Err(TransitionError::MalformedPath { expected: 32, found: 3 }));
    let r = run(&mut o, Session::increment("alice", [1u8; 32]), 1, full_path(), Ok([5u8; 32]), &mut n);
    assert_eq!(r, Err(TransitionError::ProofGeneration(ProofFailure::NonceReused)));
    assert_eq!(o.state_of("alice"), before);
    assert_eq!(n, 4);
}

#[test]
fn session_proof_failure_releases_the_lease() {
    let mut o = Orchestrator::new(50);
    let mut n = 0;
    init(&mut o, "alice", 1, &mut n);
    let mut s = Session::increment("alice", [2u8; 32]);
    assert!(matches!(s.start(&mut o, 5), Step::FetchPath(_)));
    assert_eq!(s.stage(), Stage::Fetching);
    assert!(matches!(s.path_fetched(&mut o, Ok(full_path())), Step::Prove));
    let e = TransitionError::ProofGeneration(ProofFailure::Rejected);
    assert!(matches!(s.proven(&mut o, Err(e), Vec::new()), Step::Finished(Err(x)) if x == e));
    assert_eq!(o.phase("alice", 6), AccountPhase::Ready);
    assert_eq!(o.get("alice").unwrap().0.counter_value(), 0);
}

#[test]
fn concurrent_sessions_one_waits() {
    let mut o = Orchestrator::new(50);
    let mut n = 0;
    init(&mut o, "alice", 1, &mut n);
    let mut first = Session::increment("alice", [2u8; 32]);
    assert!(matches!(first.start(&mut o, 10), Step::FetchPath(_)));
    let mut second = Session::increment("alice", [3u8; 32]);
    assert!(matches!(second.start(&mut o, 11), Step::Finished(Err(TransitionError::Concurrency))));
    assert!(matches!(first.path_fetched(&mut o, Ok(full_path())), Step::Prove));
    let p = mock_proofs(first.witness().unwrap());
    assert!(matches!(first.proven(&mut o, Ok(p), vec![1u8]), Step::Submit));
    assert!(matches!(first.submitted(&mut o, Ok([4u8; 32])), Step::Finished(Ok(_))));
    assert_eq!(o.get("alice").unwrap().0.counter_value(), 1);
    let r = run(&mut o, Session::increment("alice", [5u8; 32]), 12, full_path(), Ok([6u8; 32]), &mut n);
    assert_eq!(r, Ok([6u8; 32]));
    assert_eq!(o.get("alice").unwrap().0.counter_value(), 2);
}
