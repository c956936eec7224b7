//! Little-endian byte encodings of unsigned integers.

use vstd::prelude::*;

verus! {

/// The value of a little-endian byte string.
pub open spec fn le_value(s: Seq<u8>) -> nat
    decreases s.len(),
{
    if s.len() == 0 {
        0
    } else {
        s[0] as nat + 256 * le_value(s.drop_first())
    }
}

/// 256 to the power `n`.
pub open spec fn pow256(n: nat) -> nat
    decreases n,
{
    if n == 0 {
        1
    } else {
        256 * pow256((n - 1) as nat)
    }
}

pub proof fn lemma_pow256_positive(n: nat)
    ensures
        pow256(n) > 0,
    decreases n,
{
    if n > 0 {
        lemma_pow256_positive((n - 1) as nat);
    }
}

pub proof fn lemma_pow256_16()
    ensures
        pow256(16) == 0x1_0000_0000_0000_0000_0000_0000_0000_0000nat,
{
    reveal_with_fuel(pow256, 17);
}

pub proof fn lemma_pow256_4()
    ensures
        pow256(4) == 0x1_0000_0000nat,
{
    reveal_with_fuel(pow256, 5);
}

/// A little-endian string of `n` bytes stays below `256^n`.
pub proof fn lemma_le_value_bound(s: Seq<u8>)
    ensures
        le_value(s) < pow256(s.len()),
    decreases s.len(),
{
    if s.len() > 0 {
        lemma_le_value_bound(s.drop_first());
        let t = le_value(s.drop_first());
        let p = pow256(s.drop_first().len());
        assert(s[0] as nat + 256 * t < 256 * p) by (nonlinear_arith)
            requires
                t < p,
                s[0] < 256,
        ;
    }
}

/// Appending a byte adds it at the next power of 256.
pub proof fn lemma_le_value_push(s: Seq<u8>, b: u8)
    ensures
        le_value(s.push(b)) == le_value(s) + pow256(s.len()) * b,
    decreases s.len(),
{
    if s.len() == 0 {
        assert(s.push(b).drop_first() =~= Seq::<u8>::empty());
        assert(le_value(Seq::<u8>::empty()) == 0);
        assert(s.push(b)[0] == b);
        assert(pow256(0) == 1);
    } else {
        assert(s.push(b).drop_first() =~= s.drop_first().push(b));
        lemma_le_value_push(s.drop_first(), b);
        let t = le_value(s.drop_first());
        let p = pow256(s.drop_first().len());
        assert(s.push(b)[0] == s[0]);
        assert(pow256(s.len()) == 256 * p);
        assert(256 * (t + p * b) == 256 * t + (256 * p) * b) by (nonlinear_arith);
    }
}

/// Peeling the lowest byte off a suffix.
pub proof fn lemma_le_value_step(s: Seq<u8>, i: int, n: int)
    requires
        0 <= i < n <= s.len(),
    ensures
        le_value(s.subrange(i, n)) == s[i] as nat + 256 * le_value(s.subrange(i + 1, n)),
{
    assert(s.subrange(i, n).drop_first() =~= s.subrange(i + 1, n));
}

/// Reads `n` little-endian bytes of `b`, starting at `start`, as a `u128`.
pub fn read_le_u128(b: &[u8; 32], start: usize, n: usize) -> (r: u128)
    requires
        n <= 16,
        start + n <= 32,
    ensures
        r as nat == le_value(b@.subrange(start as int, start + n)),
{
    let mut acc: u128 = 0;
    let mut i: usize = n;
    while i > 0
        invariant
            i <= n <= 16,
            start + n <= 32,
            acc as nat == le_value(b@.subrange(start + i, start + n)),
        decreases i,
    {
        let byte = b[start + i - 1];
        proof {
            lemma_le_value_step(b@, start + i - 1, start + n as int);
            lemma_le_value_bound(b@.subrange(start + i, start + n));
            lemma_pow256_16();
            let len = (n - i) as nat;
            assert(pow256(len) * 256 == pow256(len + 1));
            lemma_pow256_monotone(len + 1, 16);
            assert(acc * 256 + byte < 256 * pow256(len)) by (nonlinear_arith)
                requires
                    acc < pow256(len),
                    byte < 256,
            ;
        }
        acc = acc * 256 + byte as u128;
        i = i - 1;
    }
    acc
}

pub proof fn lemma_pow256_monotone(a: nat, b: nat)
    requires
        a <= b,
    ensures
        pow256(a) <= pow256(b),
    decreases b,
{
    if a < b {
        lemma_pow256_monotone(a, (b - 1) as nat);
        lemma_pow256_positive((b - 1) as nat);
    }
}

/// The sixteen little-endian bytes of `v`.
pub fn le_bytes_u128(v: u128) -> (r: Vec<u8>)
    ensures
        r@.len() == 16,
        le_value(r@) == v as nat,
{
    let mut out: Vec<u8> = Vec::new();
    let mut x: u128 = v;
    let mut i: usize = 0;
    proof {
        assert(le_value(out@) == 0);
        assert(pow256(0) == 1);
    }
    while i < 16
        invariant
            i <= 16,
            out@.len() == i,
            v as nat == le_value(out@) + pow256(i as nat) * x,
            x * pow256(i as nat) <= v,
        decreases 16 - i,
    {
        let b: u8 = (x % 256) as u8;
        let next: u128 = x / 256;
        proof {
            lemma_le_value_push(out@, b);
            let p = pow256(i as nat);
            assert(pow256((i + 1) as nat) == 256 * p);
            assert(x == 256 * next + b);
            assert(p * x == p * b + (256 * p) * next) by (nonlinear_arith)
                requires
                    x == 256 * next + b,
            ;
            assert(next * (256 * p) <= x * p) by (nonlinear_arith)
                requires
                    x == 256 * next + b,
                    b >= 0,
                    p >= 0,
            ;
        }
        out.push(b);
        x = next;
        i = i + 1;
    }
    proof {
        lemma_pow256_16();
        assert(x == 0) by (nonlinear_arith)
            requires
                x * 0x1_0000_0000_0000_0000_0000_0000_0000_0000nat <= v,
                v < 0x1_0000_0000_0000_0000_0000_0000_0000_0000nat,
        ;
    }
    out
}

} // verus!
