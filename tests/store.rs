use counter_ledger::resource::{new_counter, SpendingKey};
use counter_ledger::store::{AccountStore, Lease, SlotState};

#[test]
fn store_get_put_overwrites() {
    let mut s = AccountStore::new();
    assert_eq!(s.get("alice"), None);
    let r0 = new_counter([1u8; 32], [2u8; 32], [3u8; 32]);
    let k = SpendingKey { secret: [4u8; 32] };
    s.put("alice", r0, k);
    assert_eq!(s.get("alice"), Some((r0, k)));
    assert_eq!(s.get("bob"), None);
    let r1 = new_counter([1u8; 32], [5u8; 32], [3u8; 32]);
    s.put("alice", r1, k);
    assert_eq!(s.get("alice"), Some((r1, k)));
    s.put("bob", r0, k);
    assert_eq!(s.get("alice"), Some((r1, k)));
    assert_eq!(s.get("bob"), Some((r0, k)));
}

#[test]
fn store_put_keeps_lease() {
    let mut s = AccountStore::new();
    let lease = Lease { ticket: 3, expires_at: 10 };
    s.set_state("carol", SlotState { record: None, lease: Some(lease) });
    let r0 = new_counter([1u8; 32], [2u8; 32], [3u8; 32]);
    let k = SpendingKey { secret: [4u8; 32] };
    s.put("carol", r0, k);
    assert_eq!(s.state_of("carol").lease, Some(lease));
    assert_eq!(s.state_of("dave"), SlotState { record: None, lease: None });
}
