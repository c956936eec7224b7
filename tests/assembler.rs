use counter_ledger::assembler::{
    assemble, balance_witnesses, check_witness, empty_transaction, finalize, increment_witness, initial_witness,
    ActionProofs, ComplianceInstance, TransitionWitness,
};
use counter_ledger::error::{ProofFailure, TransitionError};
use counter_ledger::path::{translate, LedgerNode, TREE_DEPTH};
use counter_ledger::resource::{with_counter, SpendingKey};
use counter_ledger::store::Record;

fn raw_path() -> Vec<LedgerNode> {
    (0..TREE_DEPTH).map(|i| LedgerNode { sibling: [i as u8; 32], direction_bit: i % 2 == 0 }).collect()
}

fn proofs(n: usize, tag: u8) -> ActionProofs {
    ActionProofs {
        compliance_proof: vec![tag; 4],
        instance: ComplianceInstance { nullifier: None, commitment: [tag; 32], root: [0u8; 32] },
        logic_proofs: vec![vec![tag]; n],
        balance_witness: [tag; 32],
    }
}

fn base() -> Record {
    let w = initial_witness([1u8; 32], [2u8; 32], SpendingKey { secret: [9u8; 32] }, [3u8; 32]);
    w.created
}

#[test]
fn initial_witness_is_valid() {
    let w = initial_witness([1u8; 32], [2u8; 32], SpendingKey { secret: [9u8; 32] }, [3u8; 32]);
    assert!(w.consumed.is_none());
    assert!(w.path.is_empty());
    assert_eq!(w.created.resource.counter_value(), 0);
    assert_eq!(check_witness(&w), Ok(()));
    let a = assemble(&w, proofs(1, 5)).unwrap();
    assert_eq!(a.logic_proofs.len(), 1);
    assert_eq!(a.balance_witness, [5u8; 32]);
}

#[test]
fn increment_witness_adds_one() {
    let b = base();
    let w = increment_witness(&b, &raw_path(), [7u8; 32]).unwrap();
    assert_eq!(w.consumed, Some(b));
    assert_eq!(w.created.resource.counter_value(), 1);
    assert_eq!(w.created.key, b.key);
    assert_eq!(w.path, translate(&raw_path(), TREE_DEPTH).unwrap());
    let a = assemble(&w, proofs(2, 6)).unwrap();
    assert_eq!(a.logic_proofs.len(), 2);
    assert_eq!(a.compliance_proof, vec![6u8; 4]);
}

#[test]
fn increment_witness_refuses_short_path() {
    let b = base();
    let short: Vec<LedgerNode> = raw_path().into_iter().take(5).collect();
    assert_eq!(
        increment_witness(&b, &short, [7u8; 32]).err(),
        Some(TransitionError::MalformedPath { expected: 32, found: 5 })
    );
}

#[test]
fn plus_zero_and_plus_two_fail_proof_generation() {
    let b = base();
    let good = increment_witness(&b, &raw_path(), [7u8; 32]).unwrap();
    for v in [0u128, 2] {
        let created = with_counter(&b.resource, v, [7u8; 32]);
        let w = TransitionWitness {
            consumed: good.consumed,
            path: good.path.clone(),
            created: Record { resource: created, key: b.key },
        };
        let e = Err(TransitionError::ProofGeneration(ProofFailure::ValueNotIncremented));
        assert_eq!(check_witness(&w), e);
        assert_eq!(assemble(&w, proofs(2, 1)).err(), e.err());
    }
}

#[test]
fn assemble_refuses_broken_witnesses() {
    let b = base();
    let good = increment_witness(&b, &raw_path(), [7u8; 32]).unwrap();
    let mut other_kind = good.created;
    other_kind.resource.kind_ref = [8u8; 32];
    let w = TransitionWitness { consumed: good.consumed, path: good.path.clone(), created: other_kind };
    assert_eq!(check_witness(&w), Err(TransitionError::ProofGeneration(ProofFailure::KindMismatch)));
    let mut same_nonce = good.created;
    same_nonce.resource.nonce = b.resource.nonce;
    let w = TransitionWitness { consumed: good.consumed, path: good.path.clone(), created: same_nonce };
    assert_eq!(check_witness(&w), Err(TransitionError::ProofGeneration(ProofFailure::NonceReused)));
    let w = TransitionWitness { consumed: good.consumed, path: Vec::new(), created: good.created };
    assert_eq!(check_witness(&w), Err(TransitionError::MalformedPath { expected: 32, found: 0 }));
    let mut init = initial_witness([1u8; 32], [2u8; 32], b.key, [3u8; 32]);
    init.created.resource = with_counter(&init.created.resource, 1, [2u8; 32]);
    assert_eq!(check_witness(&init), Err(TransitionError::ProofGeneration(ProofFailure::InitialValueNotZero)));
    assert_eq!(
        assemble(&good, proofs(1, 1)).err(),
        Some(TransitionError::ProofGeneration(ProofFailure::Rejected))
    );
}

#[test]
fn finalize_collects_balance_witnesses() {
    let b = base();
    let w = increment_witness(&b, &raw_path(), [7u8; 32]).unwrap();
    let a1 = assemble(&w, proofs(2, 1)).unwrap();
    let a2 = assemble(&w, proofs(2, 2)).unwrap();
    let actions = vec![a1, a2];
    assert_eq!(balance_witnesses(&actions), vec![[1u8; 32], [2u8; 32]]);
    let tx = finalize(actions, vec![42u8]);
    assert_eq!(tx.actions.len(), 2);
    assert_eq!(tx.balance_proof, vec![42u8]);
}

#[test]
fn zero_actions_give_an_empty_balance_proof() {
    let tx = finalize(Vec::new(), vec![1u8, 2, 3]);
    assert!(tx.actions.is_empty());
    assert!(tx.balance_proof.is_empty());
    let e = empty_transaction();
    assert!(e.actions.is_empty());
    assert!(e.balance_proof.is_empty());
    assert!(balance_witnesses(&Vec::new()).is_empty());
}
