//! The Merkle hash tree over asset paths, backed by the red-black tree of
//! the `ic-certified-map` crate.
//!
//! The tree is modelled by two abstractions: `entries`, the key-to-digest
//! mapping it currently holds, and `history`, the sequence of distinct keys
//! in the order they were first inserted.  The crate's root hash is a
//! function of the tree's node structure; with insertion (and no deletion)
//! as the only mutation, that structure is determined by `history`, and the
//! node hashes by `history` and `entries` together.

use serde::Serialize;
use vstd::prelude::*;

verus! {

#[verifier::external_type_specification]
#[verifier::external_body]
#[verifier::reject_recursive_types(K)]
#[verifier::reject_recursive_types(V)]
pub struct ExRbTree<K, V>(ic_certified_map::RbTree<K, V>);

/// The key-to-digest mapping that the red-black tree currently holds.
pub uninterp spec fn tree_entries(t: ic_certified_map::RbTree<Vec<u8>, [u8; 32]>) -> Map<
    Seq<u8>,
    Seq<u8>,
>;

/// The distinct keys of the red-black tree, in the order each was first
/// inserted.  The tree's node structure — and with it the root hash — is a
/// deterministic function of this sequence and of `tree_entries`.
pub uninterp spec fn tree_key_history(t: ic_certified_map::RbTree<Vec<u8>, [u8; 32]>) -> Seq<
    Seq<u8>,
>;

/// The root hash that `ic_certified_map::RbTree::root_hash` computes for a
/// tree with the given key history and entries.
pub uninterp spec fn tree_root_hash(history: Seq<Seq<u8>>, entries: Map<Seq<u8>, Seq<u8>>) -> Seq<
    u8,
>;

/// The canonical CBOR serialization (with a self-describe tag) of the
/// witness for `key`, wrapped under `label`, for a tree with the given key
/// history and entries.
pub uninterp spec fn witness_cbor(
    label: Seq<u8>,
    history: Seq<Seq<u8>>,
    entries: Map<Seq<u8>, Seq<u8>>,
    key: Seq<u8>,
) -> Seq<u8>;

/// The empty key-to-digest mapping.
pub open spec fn no_entries() -> Map<Seq<u8>, Seq<u8>> {
    Map::empty()
}

/// Relies on ic_certified_map::RbTree::new: the fresh tree holds no nodes.
#[verifier::external_body]
fn rbtree_new() -> (r: ic_certified_map::RbTree<Vec<u8>, [u8; 32]>)
    ensures
        tree_entries(r) == no_entries(),
        tree_key_history(r) == Seq::<Seq<u8>>::empty(),
{
    ic_certified_map::RbTree::new()
}

/// Relies on ic_certified_map::RbTree::insert: overwrites the value if the
/// key is present (leaving the node structure as it was), otherwise adds a
/// node for the new key.
#[verifier::external_body]
fn rbtree_insert(t: &mut ic_certified_map::RbTree<Vec<u8>, [u8; 32]>, key: Vec<u8>, value: [u8; 32])
    ensures
        tree_entries(*final(t)) == tree_entries(*old(t)).insert(key@, value@),
        tree_key_history(*final(t)) == (if tree_entries(*old(t)).contains_key(key@) {
            tree_key_history(*old(t))
        } else {
            tree_key_history(*old(t)).push(key@)
        }),
{
    t.insert(key, value)
}

/// Relies on ic_certified_map::RbTree::root_hash (via `AsHashTree`): the
/// cached root hash of the tree, a function of its structure and values.
#[verifier::external_body]
fn rbtree_root_hash(t: &ic_certified_map::RbTree<Vec<u8>, [u8; 32]>) -> (r: [u8; 32])
    ensures
        r@ == tree_root_hash(tree_key_history(*t), tree_entries(*t)),
{
    ic_certified_map::AsHashTree::root_hash(t)
}

/// Relies on ic_certified_map::RbTree::witness and ::labeled, and on
/// serde_cbor's serializer: the self-described CBOR encoding of the witness
/// for `key`, wrapped under `label`.  Serialization into a growable buffer
/// cannot fail for this tree shape, so the unwraps never fire.
#[verifier::external_body]
fn rbtree_witness_cbor(
    t: &ic_certified_map::RbTree<Vec<u8>, [u8; 32]>,
    label: &[u8],
    key: &[u8],
) -> (r: Vec<u8>)
    ensures
        r@ == witness_cbor(label@, tree_key_history(*t), tree_entries(*t), key@),
{
    let tree = ic_certified_map::labeled(label, t.witness(key));
    let mut serializer = serde_cbor::ser::Serializer::new(Vec::new());
    serializer.self_describe().unwrap();
    tree.serialize(&mut serializer).unwrap();
    serializer.into_inner()
}

/// A tree containing the hashes of all the assets; used for certification.
pub struct AssetHashes {
    tree: ic_certified_map::RbTree<Vec<u8>, [u8; 32]>,
}

impl AssetHashes {
    /// The key-to-digest mapping this tree holds.
    pub closed spec fn entries(&self) -> Map<Seq<u8>, Seq<u8>> {
        tree_entries(self.tree)
    }

    /// The distinct keys of this tree, in first-insertion order.
    pub closed spec fn history(&self) -> Seq<Seq<u8>> {
        tree_key_history(self.tree)
    }

    /// The root hash as a function of history and entries.
    pub open spec fn root_spec(&self) -> Seq<u8> {
        tree_root_hash(self.history(), self.entries())
    }

    /// Creates an empty tree.
    pub fn new() -> (r: Self)
        ensures
            r.entries() == no_entries(),
            r.history() == Seq::<Seq<u8>>::empty(),
    {
        AssetHashes { tree: rbtree_new() }
    }

    /// Inserts or overwrites the digest stored for `key`.
    pub fn insert(&mut self, key: Vec<u8>, value: [u8; 32])
        ensures
            final(self).entries() == old(self).entries().insert(key@, value@),
            final(self).history() == (if old(self).entries().contains_key(key@) {
                old(self).history()
            } else {
                old(self).history().push(key@)
            }),
    {
        rbtree_insert(&mut self.tree, key, value)
    }

    /// The root hash over all current entries.
    pub fn root_hash(&self) -> (r: [u8; 32])
        ensures
            r@ == self.root_spec(),
    {
        rbtree_root_hash(&self.tree)
    }

    /// The serialized witness for `key`, wrapped under `label`: the minimal
    /// pruned view of the tree that proves the digest stored for `key`, or
    /// its absence, against the root hash.
    pub fn witness(&self, label: &[u8], key: &[u8]) -> (r: Vec<u8>)
        ensures
            r@ == witness_cbor(label@, self.history(), self.entries(), key@),
    {
        rbtree_witness_cbor(&self.tree, label, key)
    }
}

/// Law: the root hash is determined by the final entries together with the
/// order in which distinct keys were first inserted.  Two insertion replays
/// that introduce keys in the same order and end with the same mapping give
/// the same root hash, however their overwrites were ordered or repeated.
pub proof fn lemma_root_hash_of_content(a: &AssetHashes, b: &AssetHashes)
    requires
        a.entries() =~= b.entries(),
        a.history() =~= b.history(),
    ensures
        a.root_spec() == b.root_spec(),
{
}

/// Law: the proof format is canonical.  For identical tree content — the
/// same key history and the same entries — the serialized witness for any
/// key under any label is byte-identical, so independent verifiers see one
/// stable encoding.
pub proof fn lemma_witness_canonical(a: &AssetHashes, b: &AssetHashes, label: Seq<u8>, key: Seq<u8>)
    requires
        a.entries() =~= b.entries(),
        a.history() =~= b.history(),
    ensures
        witness_cbor(label, a.history(), a.entries(), key) == witness_cbor(
            label,
            b.history(),
            b.entries(),
            key,
        ),
{
}

} // verus!
