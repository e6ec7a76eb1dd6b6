//! Vault access-list helpers: a directionless SHA-256 merkle tree over
//! depositor keys.

use vstd::prelude::*;

use crate::hashing::{hash, sha256};

verus! {

broadcast use vstd::array::group_array_axioms;

pub const MAX_ACCESS_PROOF_LEN: usize = 32;

/// `"roshi:vault-access:leaf:v1"`, the domain separator of leaf hashes.
pub open spec fn leaf_domain() -> Seq<u8> {
    seq![114u8, 111, 115, 104, 105, 58, 118, 97, 117, 108, 116, 45, 97, 99, 99, 101, 115, 115, 58, 108, 101, 97, 102, 58, 118, 49]
}

/// `"roshi:vault-access:node:v1"`, the domain separator of interior nodes.
pub open spec fn node_domain() -> Seq<u8> {
    seq![114u8, 111, 115, 104, 105, 58, 118, 97, 117, 108, 116, 45, 97, 99, 99, 101, 115, 115, 58, 110, 111, 100, 101, 58, 118, 49]
}

/// The leaf domain separator bytes.
pub fn access_leaf_domain() -> (r: [u8; 26])
    ensures
        r@ == leaf_domain(),
{
    let r = [114u8, 111, 115, 104, 105, 58, 118, 97, 117, 108, 116, 45, 97, 99, 99, 101, 115, 115, 58, 108, 101, 97, 102, 58, 118, 49];
    assert(r@ =~= leaf_domain());
    r
}

/// The node domain separator bytes.
pub fn access_node_domain() -> (r: [u8; 26])
    ensures
        r@ == node_domain(),
{
    let r = [114u8, 111, 115, 104, 105, 58, 118, 97, 117, 108, 116, 45, 97, 99, 99, 101, 115, 115, 58, 110, 111, 100, 101, 58, 118, 49];
    assert(r@ =~= node_domain());
    r
}

/// The root of an empty access list, which no proof reaches.
pub fn empty_access_merkle_root() -> (r: [u8; 32])
    ensures
        r@ == Seq::new(32, |i: int| 0u8),
{
    let r = [0u8; 32];
    assert(r@ =~= Seq::new(32, |i: int| 0u8));
    r
}

/// Lexicographic order on byte strings: `a` is not after `b`.
pub open spec fn lex_le(a: Seq<u8>, b: Seq<u8>) -> bool {
    ||| a == b
    ||| exists|i: int| 0 <= i < a.len() && i < b.len() && a.subrange(0, i) == b.subrange(0, i) && a[i] < b[i]
}

/// The leaf committing to `owner`.
pub open spec fn leaf_hash(owner: Seq<u8>) -> Seq<u8> {
    sha256(leaf_domain() + owner)
}

/// The parent of two nodes; the smaller node is hashed first, so the parent
/// does not depend on which side each child is on.
pub open spec fn node_hash(left: Seq<u8>, right: Seq<u8>) -> Seq<u8> {
    if lex_le(left, right) {
        sha256(node_domain() + left + right)
    } else {
        sha256(node_domain() + right + left)
    }
}

/// The root reached from `leaf` by folding in each proof sibling in turn.
pub open spec fn proof_root(leaf: Seq<u8>, proof: Seq<[u8; 32]>) -> Seq<u8>
    decreases proof.len(),
{
    if proof.len() == 0 {
        leaf
    } else {
        node_hash(proof_root(leaf, proof.drop_last()), proof.last()@)
    }
}

/// Whether `proof` proves `owner` against `merkle_root`.
pub open spec fn proof_verifies(owner: Seq<u8>, merkle_root: Seq<u8>, proof: Seq<[u8; 32]>) -> bool {
    proof.len() <= MAX_ACCESS_PROOF_LEN && proof_root(leaf_hash(owner), proof) == merkle_root
}

/// Lexicographic comparison of two 32-byte strings.
pub fn bytes32_le(a: &[u8; 32], b: &[u8; 32]) -> (r: bool)
    ensures
        r == lex_le(a@, b@),
{
    let mut index: usize = 0;
    while index < 32
        invariant
            index <= 32,
            a@.subrange(0, index as int) == b@.subrange(0, index as int),
        decreases 32 - index,
    {
        if a[index] != b[index] {
            let less = a[index] < b[index];
            proof {
                if less {
                    assert(a@[index as int] < b@[index as int]);
                } else {
                    assert(a@ != b@) by {
                        assert(a@[index as int] != b@[index as int]);
                    }
                    assert forall|i: int|
                        0 <= i < a@.len() && i < b@.len() && a@.subrange(0, i) == b@.subrange(0, i)
                            implies !(a@[i] < b@[i]) by {
                        if i < index {
                            assert(a@.subrange(0, index as int)[i] == a@[i]);
                            assert(b@.subrange(0, index as int)[i] == b@[i]);
                        } else if i > index {
                            assert(a@.subrange(0, i)[index as int] == a@[index as int]);
                            assert(b@.subrange(0, i)[index as int] == b@[index as int]);
                        }
                    }
                }
            }
            return less;
        }
        proof {
            assert(a@.subrange(0, index + 1) =~= a@.subrange(0, index as int).push(a@[index as int]));
            assert(b@.subrange(0, index + 1) =~= b@.subrange(0, index as int).push(b@[index as int]));
        }
        index = index + 1;
    }
    assert(a@ =~= a@.subrange(0, 32));
    assert(b@ =~= b@.subrange(0, 32));
    true
}

/// The leaf hash committing to `owner`.
pub fn access_merkle_leaf(owner: &[u8; 32]) -> (r: [u8; 32])
    ensures
        r@ == leaf_hash(owner@),
{
    let domain = access_leaf_domain();
    let mut preimage: Vec<u8> = Vec::new();
    append_bytes(&mut preimage, &domain);
    append_bytes(&mut preimage, owner);
    hash(preimage.as_slice())
}

/// The parent of two nodes, hashed smaller-first.
pub fn access_merkle_node(left: &[u8; 32], right: &[u8; 32]) -> (r: [u8; 32])
    ensures
        r@ == node_hash(left@, right@),
{
    let (first, second) = if bytes32_le(left, right) {
        (left, right)
    } else {
        (right, left)
    };
    let domain = access_node_domain();
    let mut preimage: Vec<u8> = Vec::new();
    append_bytes(&mut preimage, &domain);
    append_bytes(&mut preimage, first);
    append_bytes(&mut preimage, second);
    hash(preimage.as_slice())
}

/// Whether `proof` proves that `owner` is in the list with `merkle_root`.
/// Proofs longer than [`MAX_ACCESS_PROOF_LEN`] are rejected.
pub fn verify_access_merkle_proof(owner: &[u8; 32], merkle_root: &[u8; 32], proof: &[[u8; 32]]) -> (r: bool)
    ensures
        r == proof_verifies(owner@, merkle_root@, proof@),
{
    if proof.len() > MAX_ACCESS_PROOF_LEN {
        return false;
    }
    let mut node = access_merkle_leaf(owner);
    let mut index: usize = 0;
    while index < proof.len()
        invariant
            index <= proof@.len(),
            node@ == proof_root(leaf_hash(owner@), proof@.subrange(0, index as int)),
        decreases proof@.len() - index,
    {
        node = access_merkle_node(&node, &proof[index]);
        proof {
            let next = proof@.subrange(0, index + 1);
            assert(next.drop_last() =~= proof@.subrange(0, index as int));
        }
        index = index + 1;
    }
    assert(proof@.subrange(0, proof@.len() as int) =~= proof@);
    crate::bytes::bytes32_eq(&node, merkle_root)
}

/// Append every byte of `bytes` to `buffer`.
pub fn append_bytes(buffer: &mut Vec<u8>, bytes: &[u8])
    ensures
        final(buffer)@ == old(buffer)@ + bytes@,
{
    let ghost initial = buffer@;
    let mut index: usize = 0;
    while index < bytes.len()
        invariant
            index <= bytes@.len(),
            buffer@ == initial + bytes@.subrange(0, index as int),
        decreases bytes@.len() - index,
    {
        buffer.push(bytes[index]);
        proof {
            assert(bytes@.subrange(0, index + 1) =~= bytes@.subrange(0, index as int).push(bytes@[index as int]));
        }
        index = index + 1;
    }
    assert(bytes@.subrange(0, bytes@.len() as int) =~= bytes@);
}

// ---------------------------------------------------------------------------
// Laws of the access tree.
// ---------------------------------------------------------------------------

proof fn lemma_first_difference(a: Seq<u8>, b: Seq<u8>, k: int) -> (i: int)
    requires
        a.len() == b.len(),
        a != b,
        0 <= k <= a.len(),
        a.subrange(0, k) == b.subrange(0, k),
    ensures
        k <= i < a.len(),
        a.subrange(0, i) == b.subrange(0, i),
        a[i] != b[i],
    decreases a.len() - k,
{
    if k == a.len() {
        assert(a =~= a.subrange(0, k));
        assert(b =~= b.subrange(0, k));
        assert(false);
        k
    } else if a[k] != b[k] {
        k
    } else {
        assert(a.subrange(0, k + 1) =~= a.subrange(0, k).push(a[k]));
        assert(b.subrange(0, k + 1) =~= b.subrange(0, k).push(b[k]));
        lemma_first_difference(a, b, k + 1)
    }
}

/// Lexicographic order on equal-length byte strings is total and
/// antisymmetric.
pub proof fn law_lex_order_is_total_and_antisymmetric(a: Seq<u8>, b: Seq<u8>)
    requires
        a.len() == b.len(),
    ensures
        lex_le(a, b) || lex_le(b, a),
        lex_le(a, b) && lex_le(b, a) ==> a == b,
{
    if a != b {
        assert(a.subrange(0, 0) =~= b.subrange(0, 0));
        let i = lemma_first_difference(a, b, 0);
        if a[i] < b[i] {
            assert(lex_le(a, b));
        } else {
            assert(b.subrange(0, i) == a.subrange(0, i));
            assert(lex_le(b, a));
        }
        if lex_le(a, b) && lex_le(b, a) {
            let j = choose|j: int| 0 <= j < a.len() && j < b.len() && a.subrange(0, j) == b.subrange(0, j) && a[j] < b[j];
            let k = choose|k: int| 0 <= k < b.len() && k < a.len() && b.subrange(0, k) == a.subrange(0, k) && b[k] < a[k];
            if j < k {
                assert(b.subrange(0, k)[j] == a.subrange(0, k)[j]);
            } else if k < j {
                assert(a.subrange(0, j)[k] == b.subrange(0, j)[k]);
            }
        }
    }
}

/// The parent of two equal-length nodes does not depend on their order, so
/// proofs need not record which side each sibling is on.
pub proof fn law_access_merkle_node_is_directionless(left: Seq<u8>, right: Seq<u8>)
    requires
        left.len() == right.len(),
    ensures
        node_hash(left, right) == node_hash(right, left),
{
    law_lex_order_is_total_and_antisymmetric(left, right);
}

/// Lexicographic order on equal-length byte strings is transitive.
pub(crate) proof fn lemma_lex_transitive(a: Seq<u8>, b: Seq<u8>, c: Seq<u8>)
    requires
        a.len() == b.len(),
        b.len() == c.len(),
        lex_le(a, b),
        lex_le(b, c),
    ensures
        lex_le(a, c),
{
    if a != b && b != c {
        let j = choose|j: int| 0 <= j < a.len() && j < b.len() && a.subrange(0, j) == b.subrange(0, j) && a[j] < b[j];
        let k = choose|k: int| 0 <= k < b.len() && k < c.len() && b.subrange(0, k) == c.subrange(0, k) && b[k] < c[k];
        if j < k {
            assert(b.subrange(0, k)[j] == c.subrange(0, k)[j]);
            assert forall|i: int| 0 <= i < j implies a.subrange(0, j)[i] == c.subrange(0, j)[i] by {
                assert(a.subrange(0, j)[i] == b.subrange(0, j)[i]);
                assert(b.subrange(0, k)[i] == c.subrange(0, k)[i]);
            }
            assert(a.subrange(0, j) =~= c.subrange(0, j));
            assert(a[j] < c[j]);
        } else if k < j {
            assert(a.subrange(0, j)[k] == b.subrange(0, j)[k]);
            assert forall|i: int| 0 <= i < k implies a.subrange(0, k)[i] == c.subrange(0, k)[i] by {
                assert(a.subrange(0, j)[i] == b.subrange(0, j)[i]);
                assert(b.subrange(0, k)[i] == c.subrange(0, k)[i]);
            }
            assert(a.subrange(0, k) =~= c.subrange(0, k));
            assert(a[k] < c[k]);
        } else {
            assert(a.subrange(0, j) =~= c.subrange(0, j));
        }
    }
}

} // verus!
