//! The counter resource and the key that spends it.

use vstd::prelude::*;
use crate::encoding::{le_bytes_u128, le_value, read_le_u128};
use crate::error::{ProofFailure, TransitionError};

verus! {

/// One version of a counter. The counter's value is held little-endian in
/// the first sixteen bytes of `value`; the rest of `value` is payload.
#[derive(Debug, Clone, Copy, PartialEq, Eq)]
pub struct Resource {
    /// The kind (logic) the resource obeys.
    pub kind_ref: [u8; 32],
    pub quantity: u128,
    pub value: [u8; 32],
    pub ephemeral: bool,
    /// Chosen afresh for every version, so that no two versions coincide.
    pub nonce: [u8; 32],
    /// Binds the resource to the spending key that may consume it.
    pub key_commitment: [u8; 32],
}

/// The private key whose holder may consume a resource.
#[derive(Debug, Clone, Copy, PartialEq, Eq)]
pub struct SpendingKey {
    pub secret: [u8; 32],
}

/// The counter value held in a value payload.
pub open spec fn counter_of(value: Seq<u8>) -> nat {
    le_value(value.subrange(0, 16))
}

/// The largest value a counter can hold.
pub const MAX_COUNTER: u128 = 0xffff_ffff_ffff_ffff_ffff_ffff_ffff_ffff;

impl Resource {
    pub open spec fn spec_counter_value(&self) -> nat {
        counter_of(self.value@)
    }

    /// The counter value this resource holds.
    pub fn counter_value(&self) -> (r: u128)
        ensures
            r as nat == self.spec_counter_value(),
    {
        read_le_u128(&self.value, 0, 16)
    }
}

/// Whether `r` is `base` with another counter value and nonce, and every
/// other field and payload byte kept.
pub open spec fn same_counter_line(base: Resource, r: Resource) -> bool {
    &&& r.kind_ref == base.kind_ref
    &&& r.quantity == base.quantity
    &&& r.ephemeral == base.ephemeral
    &&& r.key_commitment == base.key_commitment
    &&& r.value@.subrange(16, 32) == base.value@.subrange(16, 32)
}

/// `base` with its counter set to `v` and its nonce to `nonce`.
pub fn with_counter(base: &Resource, v: u128, nonce: [u8; 32]) -> (r: Resource)
    ensures
        same_counter_line(*base, r),
        r.spec_counter_value() == v as nat,
        r.nonce == nonce,
{
    let bytes = le_bytes_u128(v);
    let mut value = base.value;
    let mut i: usize = 0;
    while i < 16
        invariant
            i <= 16,
            bytes@.len() == 16,
            value@.len() == 32,
            forall|k: int| 0 <= k < i ==> value@[k] == bytes@[k],
            forall|k: int| 16 <= k < 32 ==> value@[k] == base.value@[k],
        decreases 16 - i,
    {
        value[i] = bytes[i];
        i = i + 1;
    }
    proof {
        assert(value@.subrange(0, 16) =~= bytes@);
        assert(value@.subrange(16, 32) =~= base.value@.subrange(16, 32));
    }
    Resource {
        kind_ref: base.kind_ref,
        quantity: base.quantity,
        value,
        ephemeral: base.ephemeral,
        nonce,
        key_commitment: base.key_commitment,
    }
}

/// Whether `r` is the fresh counter of `kind_ref` under `nonce`, bound to
/// `key_commitment`: one unit, not ephemeral, and an all-zero value, so its
/// counter is zero.
pub open spec fn is_fresh_counter(r: Resource, kind_ref: [u8; 32], nonce: [u8; 32], key_commitment: [u8; 32]) -> bool {
    &&& r.kind_ref == kind_ref
    &&& r.quantity == 1
    &&& !r.ephemeral
    &&& r.nonce == nonce
    &&& r.key_commitment == key_commitment
    &&& r.spec_counter_value() == 0
    &&& forall|k: int| 0 <= k < 32 ==> #[trigger] r.value@[k] == 0
}

/// A fresh, non-ephemeral counter of one unit at value zero, with a zero
/// payload after the counter.
pub fn new_counter(kind_ref: [u8; 32], nonce: [u8; 32], key_commitment: [u8; 32]) -> (r: Resource)
    ensures
        is_fresh_counter(r, kind_ref, nonce, key_commitment),
{
    let value: [u8; 32] = [0u8; 32];
    proof {
        assert(value@.subrange(0, 16) =~= Seq::new(16, |k: int| 0u8));
        lemma_zero_bytes(16);
    }
    Resource { kind_ref, quantity: 1, value, ephemeral: false, nonce, key_commitment }
}

proof fn lemma_zero_bytes(n: nat)
    ensures
        le_value(Seq::new(n, |k: int| 0u8)) == 0,
    decreases n,
{
    if n > 0 {
        assert(Seq::new(n, |k: int| 0u8).drop_first() =~= Seq::new((n - 1) as nat, |k: int| 0u8));
        lemma_zero_bytes((n - 1) as nat);
    }
}

/// Whether two digests hold the same bytes.
pub fn same_bytes(a: &[u8; 32], b: &[u8; 32]) -> (r: bool)
    ensures
        r == (a@ == b@),
{
    let mut i: usize = 0;
    while i < 32
        invariant
            i <= 32,
            a@.len() == 32,
            b@.len() == 32,
            forall|k: int| 0 <= k < i ==> a@[k] == b@[k],
        decreases 32 - i,
    {
        if a[i] != b[i] {
            return false;
        }
        i = i + 1;
    }
    proof {
        assert(a@ =~= b@);
    }
    true
}

/// Whether `created` is a correct increment of `consumed`: the same counter
/// line, one more in value, and a nonce of its own.
pub open spec fn is_increment(consumed: Resource, created: Resource) -> bool {
    &&& same_counter_line(consumed, created)
    &&& created.spec_counter_value() == consumed.spec_counter_value() + 1
    &&& created.nonce@ != consumed.nonce@
}

/// The next version of `consumed`: its counter plus one, under `nonce`.
pub fn increment(consumed: &Resource, nonce: [u8; 32]) -> (r: Result<Resource, TransitionError>)
    ensures
        consumed.spec_counter_value() == MAX_COUNTER ==> r == Err::<Resource, TransitionError>(
            TransitionError::ProofGeneration(ProofFailure::CounterOverflow),
        ),
        consumed.spec_counter_value() < MAX_COUNTER && nonce@ == consumed.nonce@ ==> r == Err::<Resource, TransitionError>(
            TransitionError::ProofGeneration(ProofFailure::NonceReused),
        ),
        consumed.spec_counter_value() < MAX_COUNTER && nonce@ != consumed.nonce@ ==> {
            &&& r is Ok
            &&& is_increment(*consumed, r->Ok_0)
            &&& r->Ok_0.nonce == nonce
        },
        r is Ok ==> is_increment(*consumed, r->Ok_0) && r->Ok_0.nonce == nonce,
{
    let v = consumed.counter_value();
    if v == MAX_COUNTER {
        return Err(TransitionError::ProofGeneration(ProofFailure::CounterOverflow));
    }
    if same_bytes(&nonce, &consumed.nonce) {
        return Err(TransitionError::ProofGeneration(ProofFailure::NonceReused));
    }
    Ok(with_counter(consumed, v + 1, nonce))
}

/// Two consecutive increments consume two different resources and create two
/// different resources, and no resource is both consumed by the first and
/// created by the second: no commitment and no nullifier input repeats.
pub proof fn lemma_increments_are_fresh(r0: Resource, r1: Resource, r2: Resource)
    requires
        is_increment(r0, r1),
        is_increment(r1, r2),
    ensures
        r0 != r1,
        r1 != r2,
        r0 != r2,
{
}

/// Two fresh counters made from the same inputs are the same resource.
pub proof fn lemma_fresh_counter_unique(a: Resource, b: Resource, kind_ref: [u8; 32], nonce: [u8; 32], key_commitment: [u8; 32])
    requires
        is_fresh_counter(a, kind_ref, nonce, key_commitment),
        is_fresh_counter(b, kind_ref, nonce, key_commitment),
    ensures
        a == b,
{
    assert(a.value@ =~= b.value@);
    assert(a.value == b.value);
}

/// A counter never exceeds the largest value sixteen bytes can hold.
pub proof fn lemma_counter_bound(r: Resource)
    ensures
        r.spec_counter_value() <= MAX_COUNTER,
{
    crate::encoding::lemma_le_value_bound(r.value@.subrange(0, 16));
    crate::encoding::lemma_pow256_16();
}

/// Two increments of one resource under different nonces create different
/// resources, so a retry never replays an earlier candidate.
pub proof fn lemma_retries_are_fresh(r0: Resource, a: Resource, b: Resource)
    requires
        is_increment(r0, a),
        is_increment(r0, b),
        a.nonce@ != b.nonce@,
    ensures
        a != b,
{
}

} // verus!
