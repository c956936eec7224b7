use counter_ledger::error::TransitionError;
use counter_ledger::path::{bytes_to_words, proving_path, translate, translate_inverse, LedgerNode, PathNode, TREE_DEPTH};

fn ledger_path(n: usize) -> Vec<LedgerNode> {
    (0..n)
        .map(|i| LedgerNode { sibling: [i as u8; 32], direction_bit: i % 3 == 0 })
        .collect()
}

#[test]
fn one_level_path_inverts_the_direction_bit() {
    // A one-level tree: the sibling is the left child, so the leaf is the right one.
    let raw = vec![LedgerNode { sibling: [7u8; 32], direction_bit: false }];
    let p = translate(&raw, 1).unwrap();
    assert_eq!(p, vec![PathNode { sibling: [7u8; 32], leaf_is_right: true }]);
    let raw = vec![LedgerNode { sibling: [7u8; 32], direction_bit: true }];
    let p = translate(&raw, 1).unwrap();
    assert_eq!(p, vec![PathNode { sibling: [7u8; 32], leaf_is_right: false }]);
}

#[test]
fn translate_round_trip_full_depth() {
    let raw = ledger_path(TREE_DEPTH);
    let p = translate(&raw, TREE_DEPTH).unwrap();
    assert_eq!(p.len(), TREE_DEPTH);
    for i in 0..TREE_DEPTH {
        assert_eq!(p[i].sibling, raw[i].sibling);
        assert_ne!(p[i].leaf_is_right, raw[i].direction_bit);
    }
    assert_eq!(translate_inverse(&p), raw);
    let back = translate(&translate_inverse(&p), TREE_DEPTH).unwrap();
    assert_eq!(back, p);
}

#[test]
fn translate_refuses_wrong_depth() {
    assert_eq!(
        translate(&ledger_path(31), TREE_DEPTH),
        Err(TransitionError::MalformedPath { expected: 32, found: 31 })
    );
    assert_eq!(
        translate(&ledger_path(33), TREE_DEPTH),
        Err(TransitionError::MalformedPath { expected: 32, found: 33 })
    );
    assert_eq!(
        translate(&Vec::new(), TREE_DEPTH),
        Err(TransitionError::MalformedPath { expected: 32, found: 0 })
    );
    assert_eq!(translate(&Vec::new(), 0), Ok(Vec::new()));
}

#[test]
fn words_are_little_endian() {
    let mut b = [0u8; 32];
    for i in 0..32 {
        b[i] = i as u8;
    }
    let w = bytes_to_words(&b);
    assert_eq!(w.len(), 8);
    assert_eq!(w[0], 0x03020100);
    assert_eq!(w[7], 0x1f1e1d1c);
    let all = bytes_to_words(&[0xffu8; 32]);
    assert_eq!(all, vec![u32::MAX; 8]);
}

#[test]
fn proving_path_keeps_bits_and_words() {
    let p = translate(&ledger_path(TREE_DEPTH), TREE_DEPTH).unwrap();
    let q = proving_path(&p);
    assert_eq!(q.len(), TREE_DEPTH);
    for i in 0..TREE_DEPTH {
        assert_eq!(q[i].leaf_is_right, p[i].leaf_is_right);
        let v = i as u32;
        assert_eq!(q[i].sibling_words, vec![v | v << 8 | v << 16 | v << 24; 8]);
    }
}
