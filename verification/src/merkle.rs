//! Merkle inclusion proofs: reconstructing a root from a leaf and a
//! sibling path, and checking it against a trusted accumulator root.

use vstd::prelude::*;

use crate::bytes::append_bytes;
use crate::digest::Digest;
use crate::hashing::sha256;
use crate::hashing::sha256_of;

verus! {

/// An inclusion proof for the Merkle tree.
pub struct MerkleProof {
    /// Index of the leaf for which inclusion is being proven.
    pub index: u32,
    /// Sibling digests on the path from the root to the leaf.
    /// Does not include the root and the leaf.
    pub branch: Vec<Digest>,
}

/// The root reconstructed by hashing `leaf` up a sibling path: at each
/// level the current node is paired with the next sibling — on the left
/// when the index is even, on the right when it is odd — and the index
/// is halved to move one level up.
pub open spec fn merkle_root_of(leaf: Seq<u8>, index: nat, branch: Seq<Seq<u8>>) -> Seq<u8>
    decreases branch.len(),
{
    if branch.len() == 0 {
        leaf
    } else {
        let parent = if index % 2 == 0 {
            sha256_of(leaf + branch[0])
        } else {
            sha256_of(branch[0] + leaf)
        };
        merkle_root_of(parent, index / 2, branch.drop_first())
    }
}

impl MerkleProof {
    /// The sibling path as a sequence of byte sequences.
    pub open spec fn branch_bytes(&self) -> Seq<Seq<u8>> {
        self.branch@.map_values(|d: Digest| d@)
    }

    /// Calculate the root of this branch by iteratively hashing, starting
    /// from the leaf.
    pub fn root(&self, leaf: &Digest) -> (r: Digest)
        ensures
            r@ == merkle_root_of(leaf@, self.index as nat, self.branch_bytes()),
            self.branch@.len() > 0 ==> r.wf(),
    {
        let mut current: Digest = leaf.clone();
        let mut current_index: u32 = self.index;
        let n = self.branch.len();
        proof {
            assert(self.branch_bytes().skip(0) =~= self.branch_bytes());
        }
        for i in 0..n
            invariant
                n == self.branch@.len(),
                merkle_root_of(leaf@, self.index as nat, self.branch_bytes()) == merkle_root_of(
                    current@,
                    current_index as nat,
                    self.branch_bytes().skip(i as int),
                ),
                i > 0 ==> current.wf(),
        {
            let sibling = &self.branch[i];
            let mut preimage: Vec<u8> = Vec::new();
            if current_index % 2 == 0 {
                append_bytes(&mut preimage, current.as_bytes().as_slice());
                append_bytes(&mut preimage, sibling.as_bytes().as_slice());
                proof {
                    assert(preimage@ =~= current@ + sibling@);
                }
            } else {
                append_bytes(&mut preimage, sibling.as_bytes().as_slice());
                append_bytes(&mut preimage, current.as_bytes().as_slice());
                proof {
                    assert(preimage@ =~= sibling@ + current@);
                }
            }
            proof {
                assert(self.branch_bytes().skip(i as int)[0] == sibling@);
                assert(self.branch_bytes().skip(i as int).drop_first() =~= self.branch_bytes().skip(
                    i as int + 1,
                ));
                assert(current_index >> 1u32 == current_index / 2) by (bit_vector);
            }
            current = sha256(&preimage);
            current_index = current_index >> 1;
        }
        current
    }

    /// Verify the Merkle inclusion proof against the given leaf and given root.
    pub fn verify(&self, leaf: &Digest, root: &Digest) -> (r: bool)
        ensures
            r == (merkle_root_of(leaf@, self.index as nat, self.branch_bytes()) == root@),
    {
        let computed = self.root(leaf);
        computed == *root
    }
}

/// Whether `n` is a power of two.
pub open spec fn is_power_of_two(n: nat) -> bool
    decreases n,
{
    if n == 0 {
        false
    } else if n == 1 {
        true
    } else {
        n % 2 == 0 && is_power_of_two(n / 2)
    }
}

/// One level of a Merkle tree built over `nodes`: adjacent nodes hashed
/// pairwise, left sibling first.
pub open spec fn level_up(nodes: Seq<Seq<u8>>) -> Seq<Seq<u8>> {
    Seq::new((nodes.len() / 2) as nat, |i: int| sha256_of(nodes[2 * i] + nodes[2 * i + 1]))
}

/// The root of the perfect binary Merkle tree whose bottom level is
/// `nodes` (their number a power of two): hash levels pairwise until one
/// node is left.
pub open spec fn tree_root_of(nodes: Seq<Seq<u8>>) -> Seq<u8>
    decreases nodes.len(),
{
    if nodes.len() <= 1 {
        if nodes.len() == 1 {
            nodes[0]
        } else {
            Seq::empty()
        }
    } else {
        tree_root_of(level_up(nodes))
    }
}

/// The sibling path for the node at `index` of the bottom level `nodes`,
/// ordered from the leaf level toward the root.
pub open spec fn sibling_path_of(nodes: Seq<Seq<u8>>, index: nat) -> Seq<Seq<u8>>
    decreases nodes.len(),
{
    if nodes.len() <= 1 {
        Seq::empty()
    } else {
        let sibling = if index % 2 == 0 {
            nodes[index as int + 1]
        } else {
            nodes[index as int - 1]
        };
        seq![sibling] + sibling_path_of(level_up(nodes), index / 2)
    }
}

/// Law (Merkle round trip): over a freshly built perfect tree, hashing
/// the leaf at `index` up its own sibling path reconstructs exactly the
/// tree's root.
pub proof fn lemma_merkle_round_trip(leaves: Seq<Seq<u8>>, index: nat)
    requires
        is_power_of_two(leaves.len()),
        index < leaves.len(),
    ensures
        merkle_root_of(leaves[index as int], index, sibling_path_of(leaves, index)) == tree_root_of(
            leaves,
        ),
    decreases leaves.len(),
{
    if leaves.len() == 1 {
        assert(sibling_path_of(leaves, index) =~= Seq::<Seq<u8>>::empty());
    } else {
        let up = level_up(leaves);
        let path = sibling_path_of(leaves, index);
        let parent = if index % 2 == 0 {
            sha256_of(leaves[index as int] + path[0])
        } else {
            sha256_of(path[0] + leaves[index as int])
        };
        assert(leaves.len() % 2 == 0);
        if index % 2 == 0 {
            assert(2 * ((index / 2) as int) == index as int);
            assert(up[(index / 2) as int] == sha256_of(
                leaves[index as int] + leaves[index as int + 1],
            ));
        } else {
            assert(2 * ((index / 2) as int) == index as int - 1);
            assert(up[(index / 2) as int] == sha256_of(
                leaves[index as int - 1] + leaves[index as int],
            ));
        }
        assert(parent == up[(index / 2) as int]);
        assert(path.drop_first() =~= sibling_path_of(up, index / 2));
        assert(index / 2 < up.len());
        lemma_merkle_round_trip(up, index / 2);
    }
}

} // verus!
