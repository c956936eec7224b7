//! Translation of ledger authentication paths into the proving layer's form.
//!
//! The ledger's direction bit says where the sibling is (`false`: the sibling
//! is the left child). The proving layer's bit says where the proven leaf is
//! (`true`: the leaf is the right child). One is the complement of the other.

use vstd::prelude::*;
use crate::encoding::{le_value, read_le_u128};
use crate::error::TransitionError;

verus! {

/// The depth of the ledger's commitment tree.
pub const TREE_DEPTH: usize = 32;

/// One level of a path as the ledger reports it.
#[derive(Debug, Clone, Copy, PartialEq, Eq)]
pub struct LedgerNode {
    pub sibling: [u8; 32],
    /// `false`: the sibling is the left child.
    pub direction_bit: bool,
}

/// One level of a path as the proving layer reads it.
#[derive(Debug, Clone, Copy, PartialEq, Eq)]
pub struct PathNode {
    pub sibling: [u8; 32],
    /// `true`: the proven leaf is the right child.
    pub leaf_is_right: bool,
}

pub open spec fn node_to_internal(n: LedgerNode) -> PathNode {
    PathNode { sibling: n.sibling, leaf_is_right: !n.direction_bit }
}

pub open spec fn node_to_ledger(n: PathNode) -> LedgerNode {
    LedgerNode { sibling: n.sibling, direction_bit: !n.leaf_is_right }
}

/// A ledger path in the proving layer's convention, level by level.
pub open spec fn translated(p: Seq<LedgerNode>) -> Seq<PathNode> {
    p.map_values(|n: LedgerNode| node_to_internal(n))
}

/// A proving-layer path in the ledger's convention, level by level.
pub open spec fn untranslated(p: Seq<PathNode>) -> Seq<LedgerNode> {
    p.map_values(|n: PathNode| node_to_ledger(n))
}

/// Translates a ledger path of `depth` levels; any other length is malformed.
pub fn translate(raw: &Vec<LedgerNode>, depth: usize) -> (r: Result<Vec<PathNode>, TransitionError>)
    ensures
        raw@.len() == depth ==> r == Ok::<Vec<PathNode>, TransitionError>(
            r->Ok_0,
        ) && r->Ok_0@ == translated(raw@),
        raw@.len() != depth ==> r == Err::<Vec<PathNode>, TransitionError>(
            TransitionError::MalformedPath { expected: depth, found: raw@.len() as usize },
        ),
        r is Ok ==> raw@.len() == depth && r->Ok_0@ == translated(raw@) && r->Ok_0@.len() == depth,
{
    if raw.len() != depth {
        return Err(TransitionError::MalformedPath { expected: depth, found: raw.len() });
    }
    let mut out: Vec<PathNode> = Vec::new();
    let mut i: usize = 0;
    while i < raw.len()
        invariant
            i <= raw@.len(),
            out@ == translated(raw@.subrange(0, i as int)),
        decreases raw@.len() - i,
    {
        let n = raw[i];
        out.push(PathNode { sibling: n.sibling, leaf_is_right: !n.direction_bit });
        proof {
            assert(raw@.subrange(0, i + 1) =~= raw@.subrange(0, i as int).push(n));
            assert(translated(raw@.subrange(0, i + 1)) =~= translated(raw@.subrange(0, i as int)).push(node_to_internal(n)));
        }
        i = i + 1;
    }
    proof {
        assert(raw@.subrange(0, raw@.len() as int) =~= raw@);
    }
    Ok(out)
}

/// Writes a proving-layer path back in the ledger's convention.
pub fn translate_inverse(path: &Vec<PathNode>) -> (r: Vec<LedgerNode>)
    ensures
        r@ == untranslated(path@),
{
    let mut out: Vec<LedgerNode> = Vec::new();
    let mut i: usize = 0;
    while i < path.len()
        invariant
            i <= path@.len(),
            out@ == untranslated(path@.subrange(0, i as int)),
        decreases path@.len() - i,
    {
        let n = path[i];
        out.push(LedgerNode { sibling: n.sibling, direction_bit: !n.leaf_is_right });
        proof {
            assert(path@.subrange(0, i + 1) =~= path@.subrange(0, i as int).push(n));
            assert(untranslated(path@.subrange(0, i + 1)) =~= untranslated(path@.subrange(0, i as int)).push(node_to_ledger(n)));
        }
        i = i + 1;
    }
    proof {
        assert(path@.subrange(0, path@.len() as int) =~= path@);
    }
    out
}

/// Translating a ledger path and writing it back gives the path again, and
/// the same holds the other way round; each level's bit is inverted, never
/// copied.
pub proof fn lemma_translate_round_trip(p: Seq<LedgerNode>, q: Seq<PathNode>)
    ensures
        untranslated(translated(p)) == p,
        translated(untranslated(q)) == q,
        forall|i: int| 0 <= i < p.len() ==> #[trigger] translated(p)[i].leaf_is_right != p[i].direction_bit,
        forall|i: int| 0 <= i < p.len() ==> #[trigger] translated(p)[i].sibling == p[i].sibling,
{
    assert(untranslated(translated(p)) =~= p);
    assert(translated(untranslated(q)) =~= q);
}

/// The little-endian 32-bit word at position `j` of a digest.
pub open spec fn word_of(b: Seq<u8>, j: int) -> nat {
    le_value(b.subrange(4 * j, 4 * j + 4))
}

/// A 32-byte digest as eight little-endian 32-bit words.
pub fn bytes_to_words(b: &[u8; 32]) -> (r: Vec<u32>)
    ensures
        r@.len() == 8,
        forall|j: int| 0 <= j < 8 ==> #[trigger] r@[j] as nat == word_of(b@, j),
{
    let mut out: Vec<u32> = Vec::new();
    let mut j: usize = 0;
    while j < 8
        invariant
            j <= 8,
            out@.len() == j,
            forall|k: int| 0 <= k < j ==> #[trigger] out@[k] as nat == word_of(b@, k),
        decreases 8 - j,
    {
        let w = read_le_u128(b, 4 * j, 4);
        proof {
            crate::encoding::lemma_le_value_bound(b@.subrange(4 * j as int, 4 * j + 4));
            crate::encoding::lemma_pow256_4();
        }
        out.push(w as u32);
        j = j + 1;
    }
    out
}

/// One level of a path with its sibling as words, as the prover takes it.
pub struct ProvingNode {
    pub sibling_words: Vec<u32>,
    pub leaf_is_right: bool,
}

/// A proving-layer path with each sibling written as words.
pub fn proving_path(path: &Vec<PathNode>) -> (r: Vec<ProvingNode>)
    ensures
        r@.len() == path@.len(),
        forall|i: int| 0 <= i < path@.len() ==> {
            &&& (#[trigger] r@[i]).leaf_is_right == path@[i].leaf_is_right
            &&& r@[i].sibling_words@.len() == 8
            &&& forall|j: int| 0 <= j < 8 ==> r@[i].sibling_words@[j] as nat == word_of(path@[i].sibling@, j)
        },
{
    let mut out: Vec<ProvingNode> = Vec::new();
    let mut i: usize = 0;
    while i < path.len()
        invariant
            i <= path@.len(),
            out@.len() == i,
            forall|k: int| 0 <= k < i ==> {
                &&& (#[trigger] out@[k]).leaf_is_right == path@[k].leaf_is_right
                &&& out@[k].sibling_words@.len() == 8
                &&& forall|j: int| 0 <= j < 8 ==> out@[k].sibling_words@[j] as nat == word_of(path@[k].sibling@, j)
            },
        decreases path@.len() - i,
    {
        let n = path[i];
        let words = bytes_to_words(&n.sibling);
        out.push(ProvingNode { sibling_words: words, leaf_is_right: n.leaf_is_right });
        i = i + 1;
    }
    out
}

} // verus!
