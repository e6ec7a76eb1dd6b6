use roshi::access::{
    access_merkle_leaf, access_merkle_node, empty_access_merkle_root, verify_access_merkle_proof,
    MAX_ACCESS_PROOF_LEN,
};
use roshi::access_list::AccessMerkleTree;

fn key(seed: u8) -> [u8; 32] {
    let mut k = [seed; 32];
    k[0] = seed.wrapping_mul(31).wrapping_add(7);
    k[31] = seed ^ 0x5a;
    k
}

#[test]
fn verifies_single_leaf_root() {
    let owner = key(1);
    let root = access_merkle_leaf(&owner);

    assert!(verify_access_merkle_proof(&owner, &root, &[]));
}

#[test]
fn verifies_directionless_two_leaf_tree() {
    let left = key(2);
    let right = key(3);
    let left_leaf = access_merkle_leaf(&left);
    let right_leaf = access_merkle_leaf(&right);
    let root = access_merkle_node(&left_leaf, &right_leaf);

    assert!(verify_access_merkle_proof(&left, &root, &[right_leaf]));
    assert!(verify_access_merkle_proof(&right, &root, &[left_leaf]));
    assert_eq!(root, access_merkle_node(&right_leaf, &left_leaf));
}

#[test]
fn verifies_four_leaf_tree() {
    let owners = [key(4), key(5), key(6), key(7)];
    let leaves = owners.map(|owner| access_merkle_leaf(&owner));
    let left_node = access_merkle_node(&leaves[0], &leaves[1]);
    let right_node = access_merkle_node(&leaves[2], &leaves[3]);
    let root = access_merkle_node(&left_node, &right_node);

    assert!(verify_access_merkle_proof(
        &owners[2],
        &root,
        &[leaves[3], left_node],
    ));
    assert!(verify_access_merkle_proof(
        &owners[0],
        &root,
        &[leaves[1], right_node],
    ));
}

#[test]
fn rejects_wrong_owner_or_proof() {
    let owner = key(8);
    let other = key(9);
    let sibling = access_merkle_leaf(&key(10));
    let root = access_merkle_node(&access_merkle_leaf(&owner), &sibling);

    assert!(!verify_access_merkle_proof(&other, &root, &[sibling]));
    assert!(!verify_access_merkle_proof(&owner, &root, &[]));
}

#[test]
fn rejects_oversized_proof() {
    let owner = key(11);
    let root = access_merkle_leaf(&owner);
    let oversized_proof = vec![[0; 32]; MAX_ACCESS_PROOF_LEN + 1];

    assert!(!verify_access_merkle_proof(&owner, &root, &oversized_proof));
}

#[test]
fn leaf_and_node_hashes_use_their_domains() {
    let owner = key(12);
    let mut leaf_preimage = b"roshi:vault-access:leaf:v1".to_vec();
    leaf_preimage.extend_from_slice(&owner);
    assert_eq!(
        access_merkle_leaf(&owner),
        solana_sha256_hasher::hash(&leaf_preimage).to_bytes()
    );
    let low = [1u8; 32];
    let high = [2u8; 32];
    let node = solana_sha256_hasher::hashv(&[b"roshi:vault-access:node:v1", &low, &high]).to_bytes();
    assert_eq!(access_merkle_node(&high, &low), node);
    assert_eq!(access_merkle_node(&low, &high), node);
    assert_ne!(access_merkle_leaf(&owner), owner);
}

#[test]
fn empty_tree_uses_closed_root_and_has_no_proofs() {
    let tree = AccessMerkleTree::new(&[]);

    assert!(tree.is_empty());
    assert_eq!(tree.root(), [0; 32]);
    assert_eq!(tree.root(), empty_access_merkle_root());
    assert_eq!(tree.proof_for(&key(13)), None);
}

#[test]
fn builds_verifiable_proofs() {
    let owners = [key(14), key(15), key(16), key(17), key(18)];
    let tree = AccessMerkleTree::new(&owners);
    let root = tree.root();

    for owner in owners {
        let proof = tree.proof_for(&owner).unwrap();
        assert!(verify_access_merkle_proof(&owner, &root, &proof));
        assert!(tree.contains(&owner));
    }
    assert!(!tree.is_empty());
}

#[test]
fn single_owner_root_is_its_leaf() {
    let owner = key(19);
    let tree = AccessMerkleTree::new(&[owner]);
    assert_eq!(tree.root(), access_merkle_leaf(&owner));
    assert_eq!(tree.proof_for(&owner), Some(vec![]));
}

#[test]
fn root_is_stable_across_input_order() {
    let owners = [key(20), key(21), key(22), key(23), key(24)];
    let mut reversed = owners;
    reversed.reverse();

    assert_eq!(
        AccessMerkleTree::new(&owners).root(),
        AccessMerkleTree::new(&reversed).root()
    );
}

#[test]
fn duplicate_owners_do_not_change_root() {
    let owner = key(25);
    let other = key(26);

    assert_eq!(
        AccessMerkleTree::new(&[owner, other]).root(),
        AccessMerkleTree::new(&[owner, other, owner]).root()
    );
}

#[test]
fn missing_owner_has_no_proof() {
    let tree = AccessMerkleTree::new(&[key(27)]);

    assert_eq!(tree.proof_for(&key(28)), None);
    assert!(!tree.contains(&key(28)));
}

#[test]
fn two_owner_root_sorts_leaves() {
    let a = key(29);
    let b = key(30);
    let tree = AccessMerkleTree::new(&[a, b]);
    assert_eq!(
        tree.root(),
        access_merkle_node(&access_merkle_leaf(&a), &access_merkle_leaf(&b))
    );
}
