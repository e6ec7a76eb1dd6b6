//! Building vault access allowlists: the merkle tree whose root a private
//! vault stores and whose proofs depositors present.

use vstd::prelude::*;

use crate::access::{
    access_merkle_leaf, access_merkle_node, empty_access_merkle_root, law_access_merkle_node_is_directionless,
    law_lex_order_is_total_and_antisymmetric, leaf_hash, lemma_lex_transitive, lex_le, node_hash, proof_root,
    proof_verifies, MAX_ACCESS_PROOF_LEN,
};
use crate::bytes::bytes32_eq;

verus! {

broadcast use vstd::array::group_array_axioms;

/// Strict lexicographic order on byte strings.
pub open spec fn lex_lt(a: Seq<u8>, b: Seq<u8>) -> bool {
    lex_le(a, b) && a != b
}

/// Whether the entry `(leaf_a, owner_a)` sorts before `(leaf_b, owner_b)`:
/// by leaf, then by owner.
pub open spec fn entry_before(leaf_a: Seq<u8>, owner_a: Seq<u8>, leaf_b: Seq<u8>, owner_b: Seq<u8>) -> bool {
    lex_lt(leaf_a, leaf_b) || (leaf_a == leaf_b && lex_lt(owner_a, owner_b))
}

/// The layer above `layer`: adjacent pairs are hashed together and an odd
/// last node is carried up unchanged.
pub open spec fn next_layer(layer: Seq<Seq<u8>>) -> Seq<Seq<u8>> {
    Seq::new(
        ((layer.len() + 1) / 2) as nat,
        |i: int|
            if 2 * i + 1 < layer.len() {
                node_hash(layer[2 * i], layer[2 * i + 1])
            } else {
                layer[2 * i]
            },
    )
}

/// Every layer of the tree over `leaves`, leaves first, up to the first layer
/// with at most one node.
pub open spec fn merkle_layers(leaves: Seq<Seq<u8>>) -> Seq<Seq<Seq<u8>>>
    decreases leaves.len(),
{
    if leaves.len() <= 1 {
        seq![leaves]
    } else {
        seq![leaves] + merkle_layers(next_layer(leaves))
    }
}

/// The root of the tree over `leaves`; the all-zero root for no leaves.
pub open spec fn merkle_root(leaves: Seq<Seq<u8>>) -> Seq<u8> {
    if leaves.len() == 0 {
        Seq::new(32, |i: int| 0u8)
    } else {
        merkle_layers(leaves).last()[0]
    }
}

/// The sibling of node `index` in `layer`, if it has one.
pub open spec fn sibling_step(layer: Seq<Seq<u8>>, index: int) -> Seq<Seq<u8>> {
    let sibling = if index % 2 == 0 { index + 1 } else { index - 1 };
    if 0 <= sibling < layer.len() { seq![layer[sibling]] } else { Seq::empty() }
}

/// The siblings met walking up from node `index` of layer `k`.
pub open spec fn proof_path(layers: Seq<Seq<Seq<u8>>>, k: int, index: int) -> Seq<Seq<u8>>
    decreases layers.len() - k,
{
    if k < 0 || k >= layers.len() || layers[k].len() <= 1 {
        Seq::empty()
    } else {
        sibling_step(layers[k], index) + proof_path(layers, k + 1, (index / 2) as int)
    }
}

/// The byte strings of a sequence of 32-byte nodes.
pub open spec fn nodes_view(nodes: Seq<[u8; 32]>) -> Seq<Seq<u8>> {
    nodes.map_values(|node: [u8; 32]| node@)
}

#[derive(Clone, Copy, Debug, PartialEq, Eq)]
struct AccessMerkleEntry {
    owner: [u8; 32],
    leaf: [u8; 32],
}

/// An access allowlist: its distinct owners sorted by `(leaf, owner)` and
/// every layer of the merkle tree over their leaves.
#[derive(Clone, Debug, PartialEq, Eq)]
pub struct AccessMerkleTree {
    entries: Vec<AccessMerkleEntry>,
    layers: Vec<Vec<[u8; 32]>>,
}

spec fn entries_sorted(entries: Seq<AccessMerkleEntry>) -> bool {
    forall|i: int, j: int|
        0 <= i < j < entries.len() ==> entry_before(
            #[trigger] entries[i].leaf@,
            entries[i].owner@,
            #[trigger] entries[j].leaf@,
            entries[j].owner@,
        )
}

spec fn entries_hashed(entries: Seq<AccessMerkleEntry>) -> bool {
    forall|i: int| 0 <= i < entries.len() ==> (#[trigger] entries[i]).leaf@ == leaf_hash(entries[i].owner@)
}

spec fn layers_view(layers: Seq<Vec<[u8; 32]>>) -> Seq<Seq<Seq<u8>>> {
    layers.map_values(|layer: Vec<[u8; 32]>| nodes_view(layer@))
}

impl AccessMerkleTree {
    /// The owners, in tree order.
    pub closed spec fn owners(self) -> Seq<Seq<u8>> {
        self.entries@.map_values(|entry: AccessMerkleEntry| entry.owner@)
    }

    /// The leaves, in tree order.
    pub closed spec fn leaves(self) -> Seq<Seq<u8>> {
        self.entries@.map_values(|entry: AccessMerkleEntry| entry.leaf@)
    }

    /// The stored layers, leaves first.
    pub closed spec fn layer_nodes(self) -> Seq<Seq<Seq<u8>>> {
        layers_view(self.layers@)
    }

    /// The tree's internal invariant: sorted distinct entries with their
    /// leaf hashes, and exactly the merkle layers over those leaves.
    pub closed spec fn well_formed(self) -> bool {
        &&& entries_sorted(self.entries@)
        &&& entries_hashed(self.entries@)
        &&& self.entries@.len() == 0 ==> self.layers@.len() == 0
        &&& self.entries@.len() > 0 ==> layers_view(self.layers@) == merkle_layers(self.leaves())
    }
}

proof fn lemma_entry_order_total(a: AccessMerkleEntry, b: AccessMerkleEntry)
    ensures
        a == b || entry_before(a.leaf@, a.owner@, b.leaf@, b.owner@) || entry_before(
            b.leaf@,
            b.owner@,
            a.leaf@,
            a.owner@,
        ),
        !(entry_before(a.leaf@, a.owner@, b.leaf@, b.owner@) && entry_before(b.leaf@, b.owner@, a.leaf@, a.owner@)),
{
    law_lex_order_is_total_and_antisymmetric(a.leaf@, b.leaf@);
    law_lex_order_is_total_and_antisymmetric(a.owner@, b.owner@);
    if a.leaf@ == b.leaf@ && a.owner@ == b.owner@ {
        assert(a.leaf =~= b.leaf);
        assert(a.owner =~= b.owner);
    }
}

proof fn lemma_entry_order_transitive(a: AccessMerkleEntry, b: AccessMerkleEntry, c: AccessMerkleEntry)
    requires
        entry_before(a.leaf@, a.owner@, b.leaf@, b.owner@),
        entry_before(b.leaf@, b.owner@, c.leaf@, c.owner@),
    ensures
        entry_before(a.leaf@, a.owner@, c.leaf@, c.owner@),
{
    law_lex_order_is_total_and_antisymmetric(a.leaf@, c.leaf@);
    law_lex_order_is_total_and_antisymmetric(a.owner@, c.owner@);
    law_lex_order_is_total_and_antisymmetric(a.leaf@, b.leaf@);
    law_lex_order_is_total_and_antisymmetric(b.leaf@, c.leaf@);
    law_lex_order_is_total_and_antisymmetric(a.owner@, b.owner@);
    law_lex_order_is_total_and_antisymmetric(b.owner@, c.owner@);
    if lex_le(a.leaf@, b.leaf@) && lex_le(b.leaf@, c.leaf@) {
        lemma_lex_transitive(a.leaf@, b.leaf@, c.leaf@);
    }
    if lex_le(a.owner@, b.owner@) && lex_le(b.owner@, c.owner@) {
        lemma_lex_transitive(a.owner@, b.owner@, c.owner@);
    }
    if lex_le(b.leaf@, c.leaf@) && lex_le(c.leaf@, a.leaf@) {
        lemma_lex_transitive(b.leaf@, c.leaf@, a.leaf@);
    }
    if lex_le(c.leaf@, a.leaf@) && lex_le(a.leaf@, b.leaf@) {
        lemma_lex_transitive(c.leaf@, a.leaf@, b.leaf@);
    }
}

fn entry_before_exec(a: &AccessMerkleEntry, b: &AccessMerkleEntry) -> (r: bool)
    ensures
        r == entry_before(a.leaf@, a.owner@, b.leaf@, b.owner@),
{
    if bytes32_eq(&a.leaf, &b.leaf) {
        !bytes32_eq(&a.owner, &b.owner) && crate::access::bytes32_le(&a.owner, &b.owner)
    } else {
        crate::access::bytes32_le(&a.leaf, &b.leaf)
    }
}

/// Insert `entry` at its sorted place unless it is already there.
fn insert_entry(entries: &mut Vec<AccessMerkleEntry>, entry: AccessMerkleEntry)
    requires
        entries_sorted(old(entries)@),
    ensures
        entries_sorted(final(entries)@),
        final(entries)@.to_set() == old(entries)@.to_set().insert(entry),
{
    let mut position: usize = 0;
    while position < entries.len() && entry_before_exec(&entries[position], &entry)
        invariant
            position <= entries@.len(),
            entries_sorted(entries@),
            forall|i: int|
                0 <= i < position ==> entry_before(
                    #[trigger] entries@[i].leaf@,
                    entries@[i].owner@,
                    entry.leaf@,
                    entry.owner@,
                ),
        decreases entries@.len() - position,
    {
        position = position + 1;
    }
    let ghost before = entries@;
    if position < entries.len() && bytes32_eq(&entries[position].owner, &entry.owner)
        && bytes32_eq(&entries[position].leaf, &entry.leaf) {
        proof {
            assert(entries@[position as int].owner =~= entry.owner);
            assert(entries@[position as int].leaf =~= entry.leaf);
            assert(before.to_set().insert(entry) =~= before.to_set());
        }
        return;
    }
    proof {
        if position < before.len() {
            lemma_entry_order_total(before[position as int], entry);
        }
    }
    entries.insert(position, entry);
    proof {
        let after = entries@;
        assert(after == before.insert(position as int, entry));
        assert forall|i: int, j: int| 0 <= i < j < after.len() implies entry_before(
            #[trigger] after[i].leaf@,
            after[i].owner@,
            #[trigger] after[j].leaf@,
            after[j].owner@,
        ) by {
            if j > position {
                let bj = before[j - 1];
                assert(after[j] == bj);
                if j - 1 > position {
                    assert(entry_before(before[position as int].leaf@, before[position as int].owner@, bj.leaf@, bj.owner@));
                    lemma_entry_order_transitive(entry, before[position as int], bj);
                }
                assert(entry_before(entry.leaf@, entry.owner@, bj.leaf@, bj.owner@));
                if i < position {
                    assert(after[i] == before[i]);
                    lemma_entry_order_transitive(after[i], entry, bj);
                } else if i > position {
                    assert(after[i] == before[i - 1]);
                }
            }
        }
        assert(after.to_set() =~= before.to_set().insert(entry)) by {
            assert forall|x: AccessMerkleEntry| after.to_set().contains(x) implies before.to_set().insert(entry).contains(x) by {
                let k = choose|k: int| 0 <= k < after.len() && after[k] == x;
                if k < position {
                    assert(before[k] == x);
                } else if k > position {
                    assert(before[k - 1] == x);
                }
            }
            assert forall|x: AccessMerkleEntry| before.to_set().insert(entry).contains(x) implies after.to_set().contains(x) by {
                if x == entry {
                    assert(after[position as int] == x);
                } else {
                    let k = choose|k: int| 0 <= k < before.len() && before[k] == x;
                    if k < position {
                        assert(after[k] == x);
                    } else {
                        assert(after[k + 1] == x);
                    }
                }
            }
        }
    }
}

/// The node reached from `node` by folding in each sibling of `path` in turn.
pub open spec fn fold_path(node: Seq<u8>, path: Seq<Seq<u8>>) -> Seq<u8>
    decreases path.len(),
{
    if path.len() == 0 {
        node
    } else {
        node_hash(fold_path(node, path.drop_last()), path.last())
    }
}

/// Whether `owners` is strictly sorted by `(leaf, owner)`.
pub open spec fn sorted_by_leaf(owners: Seq<Seq<u8>>) -> bool {
    forall|i: int, j: int|
        0 <= i < j < owners.len() ==> entry_before(
            leaf_hash(#[trigger] owners[i]),
            owners[i],
            leaf_hash(#[trigger] owners[j]),
            owners[j],
        )
}

proof fn lemma_fold_append(node: Seq<u8>, a: Seq<Seq<u8>>, b: Seq<Seq<u8>>)
    ensures
        fold_path(node, a + b) == fold_path(fold_path(node, a), b),
    decreases b.len(),
{
    if b.len() == 0 {
        assert(a + b =~= a);
    } else {
        assert((a + b).drop_last() =~= a + b.drop_last());
        assert((a + b).last() == b.last());
        lemma_fold_append(node, a, b.drop_last());
    }
}

proof fn lemma_proof_root_is_fold(leaf: Seq<u8>, proof: Seq<[u8; 32]>)
    ensures
        proof_root(leaf, proof) == fold_path(leaf, nodes_view(proof)),
    decreases proof.len(),
{
    if proof.len() > 0 {
        assert(nodes_view(proof.drop_last()) =~= nodes_view(proof).drop_last());
        lemma_proof_root_is_fold(leaf, proof.drop_last());
    }
}

/// The layers over a nonempty leaf list: leaves first, each layer above is
/// the pairing of the one below, only the top layer is a single node.
proof fn lemma_layers_shape(leaves: Seq<Seq<u8>>)
    requires
        leaves.len() >= 1,
    ensures
        merkle_layers(leaves).len() >= 1,
        merkle_layers(leaves)[0] == leaves,
        merkle_layers(leaves).last().len() == 1,
        forall|k: int|
            0 <= k < merkle_layers(leaves).len() - 1 ==> (#[trigger] merkle_layers(leaves)[k]).len() > 1
                && merkle_layers(leaves)[k + 1] == next_layer(merkle_layers(leaves)[k]),
    decreases leaves.len(),
{
    if leaves.len() > 1 {
        let rest = merkle_layers(next_layer(leaves));
        lemma_layers_shape(next_layer(leaves));
        assert forall|k: int| 0 <= k < merkle_layers(leaves).len() - 1 implies (#[trigger] merkle_layers(leaves)[k]).len() > 1
            && merkle_layers(leaves)[k + 1] == next_layer(merkle_layers(leaves)[k]) by {
            if k > 0 {
                assert(merkle_layers(leaves)[k] == rest[k - 1]);
            }
        }
    }
}

/// Folding in a node's sibling gives its parent.
proof fn lemma_step_to_parent(layer: Seq<Seq<u8>>, index: int)
    requires
        layer.len() > 1,
        0 <= index < layer.len(),
        layer[index].len() == 32,
        index % 2 == 1 ==> layer[index - 1].len() == 32,
    ensures
        fold_path(layer[index], sibling_step(layer, index)) == next_layer(layer)[index / 2],
{
    reveal_with_fuel(fold_path, 2);
    let step = sibling_step(layer, index);
    let up = next_layer(layer);
    let p = index / 2;
    if index % 2 == 0 {
        assert(2 * p == index);
        if index + 1 < layer.len() {
            assert(step == seq![layer[index + 1]]);
            assert(step.drop_last() =~= Seq::<Seq<u8>>::empty());
            assert(fold_path(layer[index], step) == node_hash(layer[index], layer[index + 1]));
            assert(up[p] == node_hash(layer[2 * p], layer[2 * p + 1]));
        } else {
            assert(step =~= Seq::<Seq<u8>>::empty());
            assert(up[p] == layer[2 * p]);
        }
    } else {
        assert(2 * p + 1 == index);
        assert(step == seq![layer[index - 1]]);
        assert(step.drop_last() =~= Seq::<Seq<u8>>::empty());
        assert(fold_path(layer[index], step) == node_hash(layer[index], layer[index - 1]));
        law_access_merkle_node_is_directionless(layer[index], layer[index - 1]);
        assert(up[p] == node_hash(layer[2 * p], layer[2 * p + 1]));
    }
}

/// Folding the proof path of node `index` of layer `k` reaches the top node.
proof fn lemma_path_reaches_root(layers: Seq<Seq<Seq<u8>>>, k: int, index: int)
    requires
        layers.len() >= 1,
        layers.last().len() == 1,
        forall|j: int| 0 <= j < layers.len() - 1 ==> (#[trigger] layers[j]).len() > 1 && layers[j + 1] == next_layer(layers[j]),
        forall|j: int, i: int| 0 <= j < layers.len() && 0 <= i < layers[j].len() ==> (#[trigger] layers[j][i]).len() == 32,
        0 <= k < layers.len(),
        0 <= index < layers[k].len(),
    ensures
        fold_path(layers[k][index], proof_path(layers, k, index)) == layers.last()[0],
    decreases layers.len() - k,
{
    if k == layers.len() - 1 {
        assert(proof_path(layers, k, index) =~= Seq::<Seq<u8>>::empty());
    } else {
        let layer = layers[k];
        let step = sibling_step(layer, index);
        let rest = proof_path(layers, k + 1, (index / 2) as int);
        assert(layer.len() > 1 && layers[k + 1] == next_layer(layer));
        assert(proof_path(layers, k, index) == step + rest);
        lemma_fold_append(layer[index], step, rest);
        assert(layers[k][index].len() == 32);
        if index % 2 == 1 {
            assert(layers[k][index - 1].len() == 32);
        }
        lemma_step_to_parent(layer, index);
        lemma_path_reaches_root(layers, k + 1, index / 2);
    }
}

fn build_next_layer(layer: &Vec<[u8; 32]>) -> (next: Vec<[u8; 32]>)
    ensures
        nodes_view(next@) == next_layer(nodes_view(layer@)),
{
    let ghost full = next_layer(nodes_view(layer@));
    let mut next: Vec<[u8; 32]> = Vec::new();
    let pairs: usize = layer.len() - layer.len() / 2;
    let mut pair: usize = 0;
    while pair < pairs
        invariant
            full == next_layer(nodes_view(layer@)),
            pairs == layer@.len() - layer@.len() / 2,
            pairs == full.len(),
            pair <= pairs,
            next@.len() == pair,
            forall|m: int| 0 <= m < pair ==> (#[trigger] next@[m])@ == full[m],
        decreases pairs - pair,
    {
        proof {
            let n = layer@.len() as int;
            assert(n == 2 * (n / 2) + n % 2);
            assert(2 * pair < n + 1);
            assert(n == layer.len());
        }
        let left = 2 * pair;
        if left + 1 < layer.len() {
            next.push(access_merkle_node(&layer[left], &layer[left + 1]));
        } else {
            next.push(layer[left]);
        }
        proof {
            assert(nodes_view(layer@)[left as int] == layer@[left as int]@);
            if left + 1 < layer.len() {
                assert(nodes_view(layer@)[left + 1] == layer@[left + 1]@);
            }
        }
        pair = pair + 1;
    }
    assert(nodes_view(next@) =~= full);
    next
}

impl AccessMerkleTree {
    /// The allowlist of `owners`: duplicates collapse, and the order they are
    /// given in does not matter.
    pub fn new(owners: &[[u8; 32]]) -> (tree: Self)
        ensures
            tree.well_formed(),
            forall|o: Seq<u8>| tree.owners().contains(o) <==> nodes_view(owners@).contains(o),
            sorted_by_leaf(tree.owners()),
            tree.leaves() == tree.owners().map_values(|o: Seq<u8>| leaf_hash(o)),
    {
        let mut entries: Vec<AccessMerkleEntry> = Vec::new();
        let mut index: usize = 0;
        while index < owners.len()
            invariant
                index <= owners@.len(),
                entries_sorted(entries@),
                entries_hashed(entries@),
                forall|j: int| 0 <= j < entries@.len() ==> exists|k: int| 0 <= k < index && (#[trigger] entries@[j]).owner == owners@[k],
                forall|k: int| 0 <= k < index ==> exists|j: int| 0 <= j < entries@.len() && entries@[j].owner == #[trigger] owners@[k],
            decreases owners@.len() - index,
        {
            let owner = owners[index];
            let entry = AccessMerkleEntry { owner, leaf: access_merkle_leaf(&owner) };
            let ghost before = entries@;
            insert_entry(&mut entries, entry);
            proof {
                assert(entries@.to_set().contains(entry));
                assert forall|j: int| 0 <= j < entries@.len() implies (#[trigger] entries@[j]).leaf@ == leaf_hash(entries@[j].owner@) by {
                    assert(entries@.to_set().contains(entries@[j]));
                    if entries@[j] != entry {
                        assert(before.to_set().contains(entries@[j]));
                        let m = choose|m: int| 0 <= m < before.len() && before[m] == entries@[j];
                        assert(before[m].leaf@ == leaf_hash(before[m].owner@));
                    }
                }
                assert forall|j: int| 0 <= j < entries@.len() implies exists|k: int| 0 <= k < index + 1 && (#[trigger] entries@[j]).owner == owners@[k] by {
                    assert(entries@.to_set().contains(entries@[j]));
                    if entries@[j] != entry {
                        assert(before.to_set().contains(entries@[j]));
                        let m = choose|m: int| 0 <= m < before.len() && before[m] == entries@[j];
                        assert(before[m] == entries@[j]);
                    } else {
                        assert(entries@[j].owner == owners@[index as int]);
                    }
                }
                assert forall|k: int| 0 <= k < index + 1 implies exists|j: int| 0 <= j < entries@.len() && entries@[j].owner == #[trigger] owners@[k] by {
                    if k == index {
                        let j = choose|j: int| 0 <= j < entries@.len() && entries@[j] == entry;
                        assert(entries@[j].owner == owners@[k]);
                    } else {
                        let m = choose|m: int| 0 <= m < before.len() && before[m].owner == owners@[k];
                        assert(before.to_set().contains(before[m]));
                        assert(entries@.to_set().contains(before[m]));
                        let j = choose|j: int| 0 <= j < entries@.len() && entries@[j] == before[m];
                        assert(entries@[j].owner == owners@[k]);
                    }
                }
            }
            index = index + 1;
        }
        let mut layers: Vec<Vec<[u8; 32]>> = Vec::new();
        if entries.len() > 0 {
            let mut leaves: Vec<[u8; 32]> = Vec::new();
            let mut i: usize = 0;
            while i < entries.len()
                invariant
                    i <= entries@.len(),
                    leaves@.len() == i,
                    forall|m: int| 0 <= m < i ==> (#[trigger] leaves@[m]) == entries@[m].leaf,
                decreases entries@.len() - i,
            {
                leaves.push(entries[i].leaf);
                i = i + 1;
            }
            let ghost all_leaves = entries@.map_values(|entry: AccessMerkleEntry| entry.leaf@);
            assert(nodes_view(leaves@) =~= all_leaves);
            layers.push(leaves);
            proof {
                assert(layers_view(layers@) =~= seq![all_leaves]);
                assert(merkle_layers(all_leaves) =~= layers_view(layers@).drop_last() + merkle_layers(layers_view(layers@).last()));
            }
            while layers[layers.len() - 1].len() > 1
                invariant
                    layers@.len() >= 1,
                    merkle_layers(all_leaves) == layers_view(layers@).drop_last() + merkle_layers(layers_view(layers@).last()),
                decreases layers@.last()@.len(),
            {
                let next = build_next_layer(&layers[layers.len() - 1]);
                let ghost old_view = layers_view(layers@);
                layers.push(next);
                proof {
                    let last = old_view.last();
                    assert(merkle_layers(last) == seq![last] + merkle_layers(next_layer(last)));
                    assert(layers_view(layers@) =~= old_view.push(nodes_view(next@)));
                    assert(layers_view(layers@).drop_last() =~= old_view.drop_last() + seq![last]);
                }
            }
            proof {
                let view = layers_view(layers@);
                assert(merkle_layers(view.last()) == seq![view.last()]);
                assert(view.drop_last() + seq![view.last()] =~= view);
            }
        }
        let tree = AccessMerkleTree { entries, layers };
        proof {
            let owner_view = tree.owners();
            assert forall|o: Seq<u8>| owner_view.contains(o) <==> nodes_view(owners@).contains(o) by {
                if owner_view.contains(o) {
                    let j = choose|j: int| 0 <= j < owner_view.len() && owner_view[j] == o;
                    let k = choose|k: int| 0 <= k < owners@.len() && tree.entries@[j].owner == owners@[k];
                    assert(nodes_view(owners@)[k] == o);
                }
                if nodes_view(owners@).contains(o) {
                    let k = choose|k: int| 0 <= k < owners@.len() && nodes_view(owners@)[k] == o;
                    let j = choose|j: int| 0 <= j < tree.entries@.len() && tree.entries@[j].owner == owners@[k];
                    assert(owner_view[j] == o);
                }
            }
            assert(tree.leaves() =~= owner_view.map_values(|o: Seq<u8>| leaf_hash(o)));
        }
        tree
    }

    /// Whether the list has no owner.
    pub fn is_empty(&self) -> (r: bool)
        ensures
            r == (self.owners().len() == 0),
    {
        self.entries.len() == 0
    }

    /// The merkle root a vault stores for this list; the all-zero root for an
    /// empty list.
    pub fn root(&self) -> (r: [u8; 32])
        requires
            self.well_formed(),
        ensures
            r@ == merkle_root(self.leaves()),
    {
        if self.layers.len() == 0 {
            return empty_access_merkle_root();
        }
        let top = &self.layers[self.layers.len() - 1];
        proof {
            lemma_layers_shape(self.leaves());
            assert(self.layers@.len() == merkle_layers(self.leaves()).len());
            assert(nodes_view(top@) == merkle_layers(self.leaves()).last());
        }
        if top.len() == 0 {
            return empty_access_merkle_root();
        }
        top[0]
    }

    /// Whether `owner` is on the list.
    pub fn contains(&self, owner: &[u8; 32]) -> (r: bool)
        ensures
            r == self.owners().contains(owner@),
    {
        let mut index: usize = 0;
        while index < self.entries.len()
            invariant
                index <= self.entries@.len(),
                forall|j: int| 0 <= j < index ==> (#[trigger] self.entries@[j]).owner@ != owner@,
            decreases self.entries@.len() - index,
        {
            if bytes32_eq(&self.entries[index].owner, owner) {
                proof {
                    assert(self.owners()[index as int] == owner@);
                }
                return true;
            }
            index = index + 1;
        }
        proof {
            if self.owners().contains(owner@) {
                let j = choose|j: int| 0 <= j < self.owners().len() && self.owners()[j] == owner@;
                assert(self.entries@[j].owner@ == owner@);
            }
        }
        false
    }
}

impl AccessMerkleTree {
    /// The proof for `owner`: the siblings met on its path to the root, or
    /// `None` when `owner` is not on the list or the path is longer than a
    /// proof may be. A returned proof verifies against [`Self::root`].
    #[verifier::spinoff_prover]
    pub fn proof_for(&self, owner: &[u8; 32]) -> (r: Option<Vec<[u8; 32]>>)
        requires
            self.well_formed(),
        ensures
            match r {
                Some(p) => exists|i: int|
                    0 <= i < self.owners().len() && self.owners()[i] == owner@ && nodes_view(p@)
                        == proof_path(self.layer_nodes(), 0, i) && p@.len() <= MAX_ACCESS_PROOF_LEN,
                None => forall|i: int|
                    0 <= i < self.owners().len() && self.owners()[i] == owner@ ==> proof_path(
                        self.layer_nodes(),
                        0,
                        i,
                    ).len() > MAX_ACCESS_PROOF_LEN,
            },
            r matches Some(p) ==> proof_verifies(owner@, merkle_root(self.leaves()), p@),
            self.owners().contains(owner@) && self.owners().len() <= 0x1_0000_0000 ==> r is Some,
    {
        let mut position: usize = 0;
        while position < self.entries.len() && !bytes32_eq(&self.entries[position].owner, owner)
            invariant
                position <= self.entries@.len(),
                forall|j: int| 0 <= j < position ==> (#[trigger] self.entries@[j]).owner@ != owner@,
            decreases self.entries@.len() - position,
        {
            position = position + 1;
        }
        if position == self.entries.len() {
            proof {
                assert forall|i: int| 0 <= i < self.owners().len() && self.owners()[i] == owner@ implies proof_path(
                    self.layer_nodes(),
                    0,
                    i,
                ).len() > MAX_ACCESS_PROOF_LEN by {
                    assert(self.entries@[i].owner@ == owner@);
                }
            }
            return None;
        }
        let ghost start = position as int;
        let ghost layers = self.layer_nodes();
        proof {
            lemma_layers_shape(self.leaves());
            assert(layers == merkle_layers(self.leaves()));
            assert(layers[0][start] == self.entries@[start].leaf@);
        }
        let mut index: usize = position;
        let mut path: Vec<[u8; 32]> = Vec::new();
        let mut k: usize = 0;
        while k < self.layers.len() && self.layers[k].len() > 1
            invariant
                self.well_formed(),
                layers == self.layer_nodes(),
                layers == merkle_layers(self.leaves()),
                layers.len() >= 1,
                forall|j: int| 0 <= j < layers.len() - 1 ==> (#[trigger] layers[j]).len() > 1 && layers[j + 1] == next_layer(layers[j]),
                k <= layers.len(),
                k < layers.len() ==> index < layers[k as int].len(),
                nodes_view(path@) + proof_path(layers, k as int, index as int) == proof_path(layers, 0, start),
            decreases layers.len() - k,
        {
            let layer = &self.layers[k];
            let ghost before = path@;
            let sibling: usize = if index % 2 == 0 { index + 1 } else { index - 1 };
            if sibling < layer.len() {
                path.push(layer[sibling]);
            }
            proof {
                lemma_walk_step(layers, k as int, index as int, nodes_view(before), start);
                assert(layer@.len() == layers[k as int].len());
                if sibling < layer.len() {
                    assert(layers[k as int][sibling as int] == layer@[sibling as int]@);
                    assert(nodes_view(path@) =~= nodes_view(before) + sibling_step(layers[k as int], index as int));
                } else {
                    assert(nodes_view(path@) =~= nodes_view(before) + sibling_step(layers[k as int], index as int));
                }
                if k + 1 < layers.len() {
                    assert(layers[k + 1] == next_layer(layers[k as int]));
                }
            }
            index = index / 2;
            k = k + 1;
        }
        proof {
            assert(proof_path(layers, k as int, index as int) =~= Seq::<Seq<u8>>::empty());
            assert(nodes_view(path@) =~= proof_path(layers, 0, start));
        }
        if path.len() > MAX_ACCESS_PROOF_LEN {
            proof {
                if self.owners().len() <= 0x1_0000_0000 {
                    lemma_two_to_32();
                    lemma_layer_count(self.leaves(), 32);
                    lemma_path_len(layers, 0, start);
                }
                assert forall|i: int| 0 <= i < self.owners().len() && self.owners()[i] == owner@ implies proof_path(
                    self.layer_nodes(),
                    0,
                    i,
                ).len() > MAX_ACCESS_PROOF_LEN by {
                    lemma_owner_position_unique(*self, i, start);
                }
            }
            return None;
        }
        proof {
            assert(self.owners()[start] == owner@);
            assert forall|j: int, i: int| 0 <= j < layers.len() && 0 <= i < layers[j].len() implies (#[trigger] layers[j][i]).len() == 32 by {
                assert(layers[j] == nodes_view(self.layers@[j]@));
            }
            lemma_path_reaches_root(layers, 0, start);
            lemma_proof_root_is_fold(leaf_hash(owner@), path@);
            assert(self.entries@[start].leaf@ == leaf_hash(self.entries@[start].owner@));
        }
        Some(path)
    }
}

/// `2^k`.
pub open spec fn two_to(k: nat) -> nat
    decreases k,
{
    if k == 0 {
        1
    } else {
        2 * two_to((k - 1) as nat)
    }
}

proof fn lemma_two_to_32()
    ensures
        two_to(32) == 0x1_0000_0000,
{
    reveal_with_fuel(two_to, 33);
}

/// A tree over at most `2^k` leaves has at most `k + 1` layers.
proof fn lemma_layer_count(leaves: Seq<Seq<u8>>, k: nat)
    requires
        1 <= leaves.len() <= two_to(k),
    ensures
        merkle_layers(leaves).len() <= k + 1,
    decreases k,
{
    if leaves.len() > 1 {
        assert(k > 0);
        let up = next_layer(leaves);
        assert(two_to(k) == 2 * two_to((k - 1) as nat));
        assert(up.len() <= two_to((k - 1) as nat));
        lemma_layer_count(up, (k - 1) as nat);
    }
}

/// Walking up from layer `k` meets at most one sibling per layer below the
/// top.
proof fn lemma_path_len(layers: Seq<Seq<Seq<u8>>>, k: int, index: int)
    requires
        0 <= k < layers.len(),
        layers.last().len() <= 1,
    ensures
        proof_path(layers, k, index).len() <= layers.len() - 1 - k,
    decreases layers.len() - k,
{
    if k < layers.len() - 1 && layers[k].len() > 1 {
        lemma_path_len(layers, k + 1, index / 2);
    }
}

/// One step up the tree: the sibling at layer `k` joins the walked path.
proof fn lemma_walk_step(layers: Seq<Seq<Seq<u8>>>, k: int, index: int, walked: Seq<Seq<u8>>, start: int)
    requires
        0 <= k < layers.len(),
        layers[k].len() > 1,
        walked + proof_path(layers, k, index) == proof_path(layers, 0, start),
    ensures
        (walked + sibling_step(layers[k], index)) + proof_path(layers, k + 1, index / 2) == proof_path(layers, 0, start),
{
    assert(proof_path(layers, k, index) == sibling_step(layers[k], index) + proof_path(layers, k + 1, index / 2));
    assert((walked + sibling_step(layers[k], index)) + proof_path(layers, k + 1, index / 2) =~= walked + (
    sibling_step(layers[k], index) + proof_path(layers, k + 1, index / 2)));
}

/// In a well-formed list each owner sits at one position.
proof fn lemma_owner_position_unique(tree: AccessMerkleTree, i: int, j: int)
    requires
        tree.well_formed(),
        0 <= i < tree.owners().len(),
        0 <= j < tree.owners().len(),
        tree.owners()[i] == tree.owners()[j],
    ensures
        i == j,
{
    if i != j {
        let (a, b) = if i < j { (i, j) } else { (j, i) };
        let ea = tree.entries@[a];
        let eb = tree.entries@[b];
        assert(entry_before(ea.leaf@, ea.owner@, eb.leaf@, eb.owner@));
        assert(ea.owner@ == eb.owner@);
        assert(ea.leaf@ == eb.leaf@);
    }
}

/// Two strictly sorted entry lists holding the same entries are equal.
proof fn lemma_sorted_entries_unique(a: Seq<AccessMerkleEntry>, b: Seq<AccessMerkleEntry>)
    requires
        entries_sorted(a),
        entries_sorted(b),
        forall|x: AccessMerkleEntry| a.contains(x) <==> b.contains(x),
    ensures
        a == b,
    decreases a.len() + b.len(),
{
    if a.len() == 0 || b.len() == 0 {
        if a.len() > 0 {
            assert(a.contains(a[0]));
        }
        if b.len() > 0 {
            assert(b.contains(b[0]));
        }
        assert(a =~= b);
    } else {
        if a[0] != b[0] {
            assert(a.contains(a[0]));
            let j = choose|j: int| 0 <= j < b.len() && b[j] == a[0];
            assert(b.contains(b[0]));
            let i = choose|i: int| 0 <= i < a.len() && a[i] == b[0];
            assert(j > 0 && i > 0);
            assert(entry_before(b[0].leaf@, b[0].owner@, b[j].leaf@, b[j].owner@));
            assert(entry_before(a[0].leaf@, a[0].owner@, a[i].leaf@, a[i].owner@));
            lemma_entry_order_total(a[0], b[0]);
            assert(false);
        }
        let ta = a.drop_first();
        let tb = b.drop_first();
        assert forall|i: int, j: int| 0 <= i < j < ta.len() implies entry_before(
            #[trigger] ta[i].leaf@,
            ta[i].owner@,
            #[trigger] ta[j].leaf@,
            ta[j].owner@,
        ) by {
            assert(ta[i] == a[i + 1] && ta[j] == a[j + 1]);
        }
        assert forall|i: int, j: int| 0 <= i < j < tb.len() implies entry_before(
            #[trigger] tb[i].leaf@,
            tb[i].owner@,
            #[trigger] tb[j].leaf@,
            tb[j].owner@,
        ) by {
            assert(tb[i] == b[i + 1] && tb[j] == b[j + 1]);
        }
        assert forall|x: AccessMerkleEntry| ta.contains(x) <==> tb.contains(x) by {
            if ta.contains(x) {
                let i = choose|i: int| 0 <= i < ta.len() && ta[i] == x;
                assert(a[i + 1] == x);
                assert(a.contains(x));
                let j = choose|j: int| 0 <= j < b.len() && b[j] == x;
                if j == 0 {
                    assert(entry_before(a[0].leaf@, a[0].owner@, a[i + 1].leaf@, a[i + 1].owner@));
                    lemma_entry_order_total(a[0], x);
                    assert(false);
                }
                assert(tb[j - 1] == x);
            }
            if tb.contains(x) {
                let j = choose|j: int| 0 <= j < tb.len() && tb[j] == x;
                assert(b[j + 1] == x);
                assert(b.contains(x));
                let i = choose|i: int| 0 <= i < a.len() && a[i] == x;
                if i == 0 {
                    assert(entry_before(b[0].leaf@, b[0].owner@, b[j + 1].leaf@, b[j + 1].owner@));
                    lemma_entry_order_total(b[0], x);
                    assert(false);
                }
                assert(ta[i - 1] == x);
            }
        }
        lemma_sorted_entries_unique(ta, tb);
        assert(a =~= seq![a[0]] + ta);
        assert(b =~= seq![b[0]] + tb);
    }
}

/// The tree depends only on which owners are on the list: lists with the same
/// owners, in any order and with any repetition, have the same owners in the
/// same order, the same leaves and the same root.
pub proof fn law_tree_depends_only_on_owner_set(first: AccessMerkleTree, second: AccessMerkleTree)
    requires
        first.well_formed(),
        second.well_formed(),
        forall|o: Seq<u8>| first.owners().contains(o) <==> second.owners().contains(o),
    ensures
        first.owners() == second.owners(),
        first.leaves() == second.leaves(),
        merkle_root(first.leaves()) == merkle_root(second.leaves()),
{
    let a = first.entries@;
    let b = second.entries@;
    assert forall|x: AccessMerkleEntry| a.contains(x) <==> b.contains(x) by {
        if a.contains(x) {
            let i = choose|i: int| 0 <= i < a.len() && a[i] == x;
            assert(first.owners()[i] == x.owner@);
            assert(first.owners().contains(x.owner@));
            let j = choose|j: int| 0 <= j < second.owners().len() && second.owners()[j] == x.owner@;
            assert(b[j].owner@ == x.owner@ && b[j].leaf@ == x.leaf@);
            assert(b[j].owner =~= x.owner);
            assert(b[j].leaf =~= x.leaf);
        }
        if b.contains(x) {
            let j = choose|j: int| 0 <= j < b.len() && b[j] == x;
            assert(second.owners()[j] == x.owner@);
            assert(second.owners().contains(x.owner@));
            let i = choose|i: int| 0 <= i < first.owners().len() && first.owners()[i] == x.owner@;
            assert(a[i].owner@ == x.owner@ && a[i].leaf@ == x.leaf@);
            assert(a[i].owner =~= x.owner);
            assert(a[i].leaf =~= x.leaf);
        }
    }
    lemma_sorted_entries_unique(a, b);
}


/// Every owner on a list of at most `2^32` owners has a path of at most
/// [`MAX_ACCESS_PROOF_LEN`] siblings that folds from its leaf to the root.
pub proof fn law_member_paths_reach_the_root(tree: AccessMerkleTree, i: int)
    requires
        tree.well_formed(),
        0 <= i < tree.owners().len(),
        tree.owners().len() <= 0x1_0000_0000,
    ensures
        proof_path(tree.layer_nodes(), 0, i).len() <= MAX_ACCESS_PROOF_LEN,
        fold_path(leaf_hash(tree.owners()[i]), proof_path(tree.layer_nodes(), 0, i)) == merkle_root(tree.leaves()),
{
    let layers = tree.layer_nodes();
    lemma_layers_shape(tree.leaves());
    lemma_two_to_32();
    lemma_layer_count(tree.leaves(), 32);
    lemma_path_len(layers, 0, i);
    assert forall|j: int, k: int| 0 <= j < layers.len() && 0 <= k < layers[j].len() implies (#[trigger] layers[j][k]).len() == 32 by {
        assert(layers[j] == nodes_view(tree.layers@[j]@));
    }
    assert(layers[0][i] == tree.entries@[i].leaf@);
    lemma_path_reaches_root(layers, 0, i);
}

} // verus!
