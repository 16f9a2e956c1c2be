//! Merkle trees over BLAKE2b-256, through `rs_merkle`.
//!
//! `Blake2bHasher` hashes leaves and nodes with the same BLAKE2b-256 that
//! derives DIDs and commitment ids, and joins two children as
//! `blake2_256(left ++ right)`; a node without a right sibling is
//! promoted unchanged. Off-chain trees and on-chain proof checks share
//! this hasher, so a root built by a client is the root the chain checks.
use vstd::prelude::*;

use crate::crypto::{blake2_256, blake2_256_of};

verus! {

/// BLAKE2b-256 hasher for `rs_merkle`.
#[derive(Clone)]
pub struct Blake2bHasher;

/// Hash of a leaf's data.
pub open spec fn leaf_hash_of(data: Seq<u8>) -> [u8; 32] {
    blake2_256_of(data)
}

/// Hash of an inner node from its children; a lone left child is promoted.
pub open spec fn node_hash_of(left: [u8; 32], right: Option<[u8; 32]>) -> [u8; 32] {
    match right {
        Some(r) => blake2_256_of(left@ + r@),
        None => left,
    }
}

/// Hashes a leaf's data.
pub fn hash_leaf(data: &[u8]) -> (r: [u8; 32])
    ensures
        r == leaf_hash_of(data@),
{
    blake2_256(data)
}

/// Hashes an inner node from its children.
pub fn hash_node(left: &[u8; 32], right: Option<&[u8; 32]>) -> (r: [u8; 32])
    ensures
        r == node_hash_of(*left, match right {
            Some(x) => Some(*x),
            None => None,
        }),
{
    match right {
        Some(r) => {
            let mut buf: Vec<u8> = Vec::new();
            let mut i: usize = 0;
            while i < 32
                invariant
                    0 <= i <= 32,
                    buf@ == left@.take(i as int),
                decreases 32 - i,
            {
                buf.push(left[i]);
                i = i + 1;
                assert(left@.take(i as int) =~= left@.take(i - 1).push(left@[i - 1]));
            }
            let mut j: usize = 0;
            while j < 32
                invariant
                    0 <= j <= 32,
                    buf@ == left@ + r@.take(j as int),
                decreases 32 - j,
            {
                buf.push(r[j]);
                j = j + 1;
                assert(r@.take(j as int) =~= r@.take(j - 1).push(r@[j - 1]));
            }
            assert(left@.take(32) =~= left@);
            assert(r@.take(32) =~= r@);
            blake2_256(buf.as_slice())
        },
        None => *left,
    }
}

impl rs_merkle::Hasher for Blake2bHasher {
    type Hash = [u8; 32];

    fn hash(data: &[u8]) -> (r: [u8; 32])
        ensures
            r == leaf_hash_of(data@),
    {
        hash_leaf(data)
    }

    fn concat_and_hash(left: &[u8; 32], right: Option<&[u8; 32]>) -> (r: [u8; 32])
        ensures
            r == node_hash_of(*left, match right {
                Some(x) => Some(*x),
                None => None,
            }),
    {
        hash_node(left, right)
    }
}

/// Name for the root that `rs_merkle` computes over these leaves.
pub uninterp spec fn merkle_root_of(leaves: Seq<[u8; 32]>) -> Option<[u8; 32]>;

/// Name for the sibling hashes of `rs_merkle`'s inclusion proof of the
/// leaf at `index`.
pub uninterp spec fn merkle_proof_of(leaves: Seq<[u8; 32]>, index: int) -> Seq<[u8; 32]>;

/// Name for whether `rs_merkle`'s `MerkleProof::verify` accepts a proof.
pub uninterp spec fn merkle_proof_verifies(
    root: [u8; 32],
    index: int,
    leaf: [u8; 32],
    total: int,
    proof: Seq<[u8; 32]>,
) -> bool;

/// Root of `MerkleTree::<Blake2bHasher>::from_leaves(leaves)`, read with
/// `MerkleTree::root`. The tree is built inside because Verus cannot be
/// given `MerkleTree<T>` (its parameter is bounded by `rs_merkle::Hasher`,
/// a trait Verus does not accept as a bound). A committed tree has a root
/// exactly when it has leaves: an empty tree has no layers.
#[verifier::external_body]
pub(crate) fn merkle_root(leaves: &Vec<[u8; 32]>) -> (r: Option<[u8; 32]>)
    ensures
        r == merkle_root_of(leaves@),
        r is Some <==> leaves@.len() > 0,
{
    rs_merkle::MerkleTree::<Blake2bHasher>::from_leaves(leaves.as_slice()).root()
}

/// Sibling hashes of the inclusion proof of leaf `leaf_index` in
/// `MerkleTree::<Blake2bHasher>::from_leaves(leaves)`, through
/// `MerkleTree::proof` and `MerkleProof::proof_hashes` (tree built inside,
/// as for `merkle_root`). As `rs_merkle` documents by example, a proof
/// taken from a tree verifies against that tree's root.
#[verifier::external_body]
pub(crate) fn merkle_proof(leaves: &Vec<[u8; 32]>, leaf_index: usize) -> (r: Vec<[u8; 32]>)
    requires
        leaf_index < leaves@.len(),
    ensures
        r@ == merkle_proof_of(leaves@, leaf_index as int),
        merkle_root_of(leaves@) is Some ==> merkle_proof_verifies(
            merkle_root_of(leaves@)->Some_0,
            leaf_index as int,
            leaves@[leaf_index as int],
            leaves@.len() as int,
            r@,
        ),
{
    rs_merkle::MerkleTree::<Blake2bHasher>::from_leaves(leaves.as_slice()).proof(
        &[leaf_index],
    ).proof_hashes().to_vec()
}

/// `MerkleProof::<Blake2bHasher>::new(proof).verify(root, &[index],
/// &[leaf], total)`: whether the sibling hashes lead from the leaf at
/// `index` of a `total`-leaf tree to `root`.
#[verifier::external_body]
pub(crate) fn verify_inclusion(
    root: [u8; 32],
    index: u64,
    leaf: [u8; 32],
    total: u64,
    proof: Vec<[u8; 32]>,
) -> (r: bool)
    requires
        index < total,
        total <= usize::MAX,
    ensures
        r == merkle_proof_verifies(root, index as int, leaf, total as int, proof@),
{
    rs_merkle::MerkleProof::<Blake2bHasher>::new(proof).verify(
        root,
        &[index as usize],
        &[leaf],
        total as usize,
    )
}

} // verus!
