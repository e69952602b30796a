use issuer_core::digest::Digest;
use issuer_core::hashing::sha256;
use issuer_core::merkle::MerkleProof;

fn hash_pair(left: &Digest, right: &Digest) -> Digest {
    let mut bytes = left.as_bytes().clone();
    bytes.extend_from_slice(right.as_bytes());
    sha256(&bytes)
}

fn leaf(tag: u8) -> Digest {
    sha256(&vec![tag])
}

/// A depth-2 tree over four leaves, returning (leaves, level-1 nodes, root).
fn depth_two_tree(tags: [u8; 4]) -> (Vec<Digest>, Vec<Digest>, Digest) {
    let leaves: Vec<Digest> = tags.iter().map(|t| leaf(*t)).collect();
    let n01 = hash_pair(&leaves[0], &leaves[1]);
    let n23 = hash_pair(&leaves[2], &leaves[3]);
    let root = hash_pair(&n01, &n23);
    (leaves, vec![n01, n23], root)
}

fn proof_for(leaves: &[Digest], level1: &[Digest], index: u32) -> MerkleProof {
    let sibling0 = leaves[(index ^ 1) as usize].clone();
    let sibling1 = level1[((index >> 1) ^ 1) as usize].clone();
    MerkleProof {
        index,
        branch: vec![sibling0, sibling1],
    }
}

fn flip_bit(digest: &Digest, bit: usize) -> Digest {
    let mut bytes = digest.as_bytes().clone();
    bytes[bit / 8] ^= 1 << (bit % 8);
    Digest::from_bytes(bytes).unwrap()
}

#[test]
fn round_trip_every_leaf_of_a_fresh_tree() {
    let (leaves, level1, root) = depth_two_tree([1, 2, 3, 4]);
    for index in 0..4u32 {
        let inclusion = proof_for(&leaves, &level1, index);
        assert!(inclusion.root(&leaves[index as usize]) == root);
        assert!(inclusion.verify(&leaves[index as usize], &root));
    }
}

#[test]
fn depth_zero_tree_leaf_is_the_root() {
    let single = leaf(7);
    let inclusion = MerkleProof {
        index: 0,
        branch: vec![],
    };
    assert!(inclusion.verify(&single, &single));
    assert!(!inclusion.verify(&single, &leaf(8)));
}

#[test]
fn flipping_any_bit_of_a_sibling_breaks_verification() {
    let (leaves, level1, root) = depth_two_tree([1, 2, 3, 4]);
    let inclusion = proof_for(&leaves, &level1, 0);
    for position in 0..inclusion.branch.len() {
        for bit in 0..256 {
            let mut tampered = MerkleProof {
                index: inclusion.index,
                branch: inclusion.branch.clone(),
            };
            tampered.branch[position] = flip_bit(&inclusion.branch[position], bit);
            assert!(!tampered.verify(&leaves[0], &root));
        }
    }
}

#[test]
fn flipping_any_bit_of_the_leaf_breaks_verification() {
    let (leaves, level1, root) = depth_two_tree([1, 2, 3, 4]);
    let inclusion = proof_for(&leaves, &level1, 0);
    for bit in 0..256 {
        let tampered_leaf = flip_bit(&leaves[0], bit);
        assert!(!inclusion.verify(&tampered_leaf, &root));
    }
}

#[test]
fn flipping_any_bit_of_the_root_breaks_verification() {
    let (leaves, level1, root) = depth_two_tree([1, 2, 3, 4]);
    let inclusion = proof_for(&leaves, &level1, 0);
    for bit in 0..256 {
        let tampered_root = flip_bit(&root, bit);
        assert!(!inclusion.verify(&leaves[0], &tampered_root));
    }
}

#[test]
fn wrong_index_breaks_verification() {
    let (leaves, level1, root) = depth_two_tree([1, 2, 3, 4]);
    let mut inclusion = proof_for(&leaves, &level1, 0);
    inclusion.index = 1;
    assert!(!inclusion.verify(&leaves[0], &root));
}

#[test]
fn out_of_range_index_degrades_to_a_mismatch_or_a_parity_match() {
    let (leaves, level1, root) = depth_two_tree([1, 2, 3, 4]);
    // An index past the tree's capacity is not rejected: only its low bits
    // steer the path. Index 4 walks the same sides as index 0, so the
    // reconstruction still matches; index 5 walks as index 1 and mismatches.
    let mut inclusion = proof_for(&leaves, &level1, 0);
    inclusion.index = 4;
    assert!(inclusion.verify(&leaves[0], &root));
    inclusion.index = 5;
    assert!(!inclusion.verify(&leaves[0], &root));
}
