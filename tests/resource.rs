use counter_ledger::encoding::{le_bytes_u128, read_le_u128};
use counter_ledger::error::{ProofFailure, TransitionError};
use counter_ledger::resource::{increment, new_counter, same_bytes, with_counter, MAX_COUNTER};

#[test]
fn le_encoding_round_trip() {
    for v in [0u128, 1, 255, 256, 0x0102_0304, MAX_COUNTER] {
        let bytes = le_bytes_u128(v);
        assert_eq!(bytes, v.to_le_bytes().to_vec());
        let mut b = [0u8; 32];
        b[3..19].copy_from_slice(&bytes);
        assert_eq!(read_le_u128(&b, 3, 16), v);
    }
    let b = [0xabu8; 32];
    assert_eq!(read_le_u128(&b, 0, 0), 0);
    assert_eq!(read_le_u128(&b, 30, 2), 0xabab);
}

#[test]
fn new_counter_starts_at_zero() {
    let r = new_counter([1u8; 32], [2u8; 32], [3u8; 32]);
    assert_eq!(r.counter_value(), 0);
    assert_eq!(r.value, [0u8; 32]);
    assert_eq!(r.quantity, 1);
    assert!(!r.ephemeral);
    assert_eq!(r.nonce, [2u8; 32]);
    assert_eq!(r.key_commitment, [3u8; 32]);
}

#[test]
fn increment_adds_one_and_keeps_the_line() {
    let mut r = new_counter([1u8; 32], [2u8; 32], [3u8; 32]);
    r.value[20] = 9;
    let s = increment(&r, [4u8; 32]).unwrap();
    assert_eq!(s.counter_value(), 1);
    assert_eq!(s.nonce, [4u8; 32]);
    assert_eq!(s.kind_ref, r.kind_ref);
    assert_eq!(s.key_commitment, r.key_commitment);
    assert_eq!(s.value[20], 9);
    let t = increment(&s, [5u8; 32]).unwrap();
    assert_eq!(t.counter_value(), 2);
    assert_ne!(t, s);
    assert_ne!(s, r);
}

#[test]
fn increment_refuses_reused_nonce_and_overflow() {
    let r = new_counter([1u8; 32], [2u8; 32], [3u8; 32]);
    assert_eq!(
        increment(&r, [2u8; 32]),
        Err(TransitionError::ProofGeneration(ProofFailure::NonceReused))
    );
    let top = with_counter(&r, MAX_COUNTER, [6u8; 32]);
    assert_eq!(top.counter_value(), MAX_COUNTER);
    assert_eq!(
        increment(&top, [7u8; 32]),
        Err(TransitionError::ProofGeneration(ProofFailure::CounterOverflow))
    );
}

#[test]
fn retries_with_fresh_nonces_differ() {
    let r = new_counter([1u8; 32], [2u8; 32], [3u8; 32]);
    let a = increment(&r, [8u8; 32]).unwrap();
    let b = increment(&r, [9u8; 32]).unwrap();
    assert_eq!(a.counter_value(), b.counter_value());
    assert_ne!(a, b);
    assert!(same_bytes(&[1u8; 32], &[1u8; 32]));
    assert!(!same_bytes(&[1u8; 32], &[2u8; 32]));
}
