//! The nodes of the merkle tree over a block's transactions, and the root
//! that the tree's layers fold down to.
use crate::crypto::{blake3_digest, hash, SaitoHash};
use crate::bytes::push_bytes;
use rayon::iter::{IntoParallelRefMutIterator, ParallelIterator};
use vstd::prelude::*;

verus! {

/// A node of the merkle tree: the two hashes below it, its own hash once
/// worked out, and the layer that it stands in.
#[derive(Clone, Copy, Debug, PartialEq, Eq)]
pub struct MerkleTreeLayer {
    pub left: SaitoHash,
    pub right: SaitoHash,
    pub hash: SaitoHash,
    pub level: u64,
}

/// The hash of a node: the digest of its left hash followed by its right.
pub open spec fn node_hash(left: Seq<u8>, right: Seq<u8>) -> Seq<u8> {
    blake3_digest(left + right)
}

/// A node as the pair of hashes below it.
pub open spec fn node_pair(n: MerkleTreeLayer) -> (Seq<u8>, Seq<u8>) {
    (n.left@, n.right@)
}

/// The pairs of hashes below a layer of nodes.
pub open spec fn layer_pairs(ns: Seq<MerkleTreeLayer>) -> Seq<(Seq<u8>, Seq<u8>)> {
    ns.map_values(|n: MerkleTreeLayer| node_pair(n))
}

/// The hashes of a layer of nodes.
pub open spec fn pair_hashes(ps: Seq<(Seq<u8>, Seq<u8>)>) -> Seq<Seq<u8>> {
    ps.map_values(|p: (Seq<u8>, Seq<u8>)| node_hash(p.0, p.1))
}

/// The pairs of the layer above a layer whose hashes are `hs`: the hashes
/// taken two by two, the last alone beside 32 zero bytes where their number
/// is odd.
pub open spec fn pair_up(hs: Seq<Seq<u8>>) -> Seq<(Seq<u8>, Seq<u8>)> {
    Seq::new(
        ((hs.len() + 1) / 2) as nat,
        |k: int|
            (hs[2 * k], if 2 * k + 1 < hs.len() {
                hs[2 * k + 1]
            } else {
                Seq::new(32, |i: int| 0u8)
            }),
    )
}

/// The pairs of the bottom layer over the hashes `hs`: each hash beside the
/// one after it, the last beside 32 zero bytes.
pub open spec fn leaf_pairs(hs: Seq<Seq<u8>>) -> Seq<(Seq<u8>, Seq<u8>)> {
    Seq::new(
        hs.len(),
        |i: int|
            (hs[i], if i + 1 < hs.len() {
                hs[i + 1]
            } else {
                Seq::new(32, |j: int| 0u8)
            }),
    )
}

/// The root that a layer folds down to: the layer above it is formed from
/// its hashes until that layer holds a single node, whose hash is the root.
pub open spec fn root_from(ps: Seq<(Seq<u8>, Seq<u8>)>) -> Seq<u8>
    decreases ps.len(),
{
    let next = pair_up(pair_hashes(ps));
    if next.len() <= 1 || ps.len() <= 1 {
        node_hash(next[0].0, next[0].1)
    } else {
        root_from(next)
    }
}

/// The merkle root over the hashes `hs`.
pub open spec fn merkle_root(hs: Seq<Seq<u8>>) -> Seq<u8> {
    root_from(leaf_pairs(hs))
}

impl MerkleTreeLayer {
    /// A node over `left` and `right` in layer `level`, its hash not yet
    /// worked out.
    pub fn new(left: SaitoHash, right: SaitoHash, level: u64) -> (n: MerkleTreeLayer)
        ensures
            n.left == left,
            n.right == right,
            n.hash@ == Seq::new(32, |i: int| 0u8),
            n.level == level,
    {
        let n = MerkleTreeLayer { left, right, hash: [0; 32], level };
        assert(n.hash@ =~= Seq::new(32, |i: int| 0u8));
        n
    }

    /// Works out the hash of this node.
    pub fn hash(&mut self) -> (b: bool)
        ensures
            b,
            final(self).left == old(self).left,
            final(self).right == old(self).right,
            final(self).level == old(self).level,
            final(self).hash@ == node_hash(old(self).left@, old(self).right@),
    {
        let mut vbytes: Vec<u8> = Vec::new();
        push_bytes(&mut vbytes, self.left.as_slice());
        push_bytes(&mut vbytes, self.right.as_slice());
        assert(vbytes@ =~= self.left@ + self.right@);
        self.hash = hash(vbytes.as_slice());
        true
    }

    pub fn get_hash(&self) -> (h: SaitoHash)
        ensures
            h == self.hash,
    {
        self.hash
    }
}

/// Calls `par_iter_mut().all(..)` of rayon on `layers` with a closure that
/// works out the hash of each node by `MerkleTreeLayer::hash`. Trusted: the
/// contract says that every node is visited once and left as `hash` leaves
/// it, which holds because `hash` always returns `true`, so that `all`
/// stops early at no node.
#[verifier::external_body]
pub(crate) fn hash_layer_in_parallel(layers: &mut Vec<MerkleTreeLayer>)
    ensures
        final(layers)@.len() == old(layers)@.len(),
        forall|i: int|
            #![trigger final(layers)@[i]]
            0 <= i < old(layers)@.len() ==> {
                &&& final(layers)@[i].left == old(layers)@[i].left
                &&& final(layers)@[i].right == old(layers)@[i].right
                &&& final(layers)@[i].level == old(layers)@[i].level
                &&& final(layers)@[i].hash@ == node_hash(
                    old(layers)@[i].left@,
                    old(layers)@[i].right@,
                )
            },
{
    layers.par_iter_mut().all(|leaf| leaf.hash());
}

} // verus!
