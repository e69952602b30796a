//! The verifiable computation itself: commitment derivation, per-salt
//! nullifier derivation, Merkle inclusion checking, and duplicate counting.

use vstd::prelude::*;

use crate::bytes::append_bytes;
use crate::digest::Digest;
use crate::hashing::sha256;
use crate::hashing::sha256_of;
use crate::merkle::merkle_root_of;
use crate::merkle::MerkleProof;

verus! {

/// Host input to the computation.
pub struct CountNullifiersInput {
    /// Passport/Document hash.
    pub document_hash: Digest,
    /// Legacy value - left for compatibility purposes.
    pub blinder: Vec<u8>,
    /// Vector of salts for nullifiers composition.
    pub salts: Vec<Vec<u8>>,
    /// Merkle Root of all nullifiers tree.
    pub merkle_root: Digest,
    /// Merkle branches with index for nullifiers inclusion proofs.
    pub merkle_proofs: Vec<MerkleProof>,
}

/// Structure for the public values committed by the computation.
pub struct CountNullifiersJournal {
    /// Hash of the blinder.
    pub blinder_commitment: Digest,
    /// Hash of the document and blinder.
    pub document_commitment: Digest,
    /// Amount of duplicate nullifiers for a particular document hash.
    pub total_duplicates: u64,
}

/// The reason an input record is rejected before any hashing occurs.
#[derive(Debug, Clone, Copy, PartialEq, Eq, Structural)]
pub enum InputError {
    /// `salts` and `merkle_proofs` differ in length.
    LengthMismatch,
}

/// The commitment to the blinder alone: `Hash(blinder)`.
pub open spec fn blinder_commitment_of(blinder: Seq<u8>) -> Seq<u8> {
    sha256_of(blinder)
}

/// The commitment binding the document hash to the blinder:
/// `Hash(document_hash ++ blinder)`.
pub open spec fn document_commitment_of(document_hash: Seq<u8>, blinder: Seq<u8>) -> Seq<u8> {
    sha256_of(document_hash + blinder)
}

/// The nullifier derived from one salt:
/// `Hash(salt ++ blinder ++ document_hash)`.
pub open spec fn nullifier_of(salt: Seq<u8>, blinder: Seq<u8>, document_hash: Seq<u8>) -> Seq<u8> {
    sha256_of(salt + blinder + document_hash)
}

/// Whether the aligned pair (`salt`, `proof`) claims a nullifier that is
/// present in the accumulator with root `root`: the proof's reconstructed
/// root over the derived nullifier equals `root`.
pub open spec fn pair_is_duplicate(
    salt: Seq<u8>,
    mproof: MerkleProof,
    root: Seq<u8>,
    blinder: Seq<u8>,
    document_hash: Seq<u8>,
) -> bool {
    merkle_root_of(
        nullifier_of(salt, blinder, document_hash),
        mproof.index as nat,
        mproof.branch_bytes(),
    ) == root
}

/// The number of aligned pairs among the first `n` whose inclusion proof
/// verifies against `root`.
pub open spec fn duplicates_among(
    salts: Seq<Seq<u8>>,
    mproofs: Seq<MerkleProof>,
    root: Seq<u8>,
    blinder: Seq<u8>,
    document_hash: Seq<u8>,
    n: int,
) -> nat
    decreases n,
{
    if n <= 0 {
        0
    } else {
        duplicates_among(salts, mproofs, root, blinder, document_hash, n - 1) + (if pair_is_duplicate(
            salts[n - 1],
            mproofs[n - 1],
            root,
            blinder,
            document_hash,
        ) {
            1nat
        } else {
            0nat
        })
    }
}

/// The duplicate count over all aligned pairs of the input.
pub open spec fn total_duplicates_of(input: CountNullifiersInput) -> nat {
    duplicates_among(
        input.salts@.map_values(|s: Vec<u8>| s@),
        input.merkle_proofs@,
        input.merkle_root@,
        input.blinder@,
        input.document_hash@,
        input.salts@.len() as int,
    )
}

/// Law: the duplicate count over the first `n` pairs never exceeds `n`;
/// in particular the total never exceeds the number of salts.
pub proof fn lemma_duplicates_bounded(
    salts: Seq<Seq<u8>>,
    mproofs: Seq<MerkleProof>,
    root: Seq<u8>,
    blinder: Seq<u8>,
    document_hash: Seq<u8>,
    n: int,
)
    requires
        n >= 0,
    ensures
        duplicates_among(salts, mproofs, root, blinder, document_hash, n) <= n,
    decreases n,
{
    if n > 0 {
        lemma_duplicates_bounded(salts, mproofs, root, blinder, document_hash, n - 1);
    }
}

/// Law: the blinder commitment is a deterministic function of the blinder
/// alone — any two runs over equal blinders commit to the same value.
pub proof fn lemma_blinder_commitment_deterministic(
    a: CountNullifiersInput,
    b: CountNullifiersInput,
)
    requires
        a.blinder@ == b.blinder@,
    ensures
        blinder_commitment_of(a.blinder@) == blinder_commitment_of(b.blinder@),
{
}

/// Runs the whole computation: validates the input shape, derives the two
/// commitments, checks every salt's inclusion proof and counts the
/// duplicates. Rejects the input, before any hashing, exactly when
/// `salts` and `merkle_proofs` differ in length; every valid-shape input
/// yields a journal whose fields are pinned by the spec functions above.
pub fn count_nullifiers(input: &CountNullifiersInput) -> (r: Result<
    CountNullifiersJournal,
    InputError,
>)
    ensures
        r is Ok <==> input.salts@.len() == input.merkle_proofs@.len(),
        r is Err ==> r == Result::<CountNullifiersJournal, InputError>::Err(
            InputError::LengthMismatch,
        ),
        r matches Ok(j) ==> {
            &&& j.blinder_commitment@ == blinder_commitment_of(input.blinder@)
            &&& j.blinder_commitment.wf()
            &&& j.document_commitment@ == document_commitment_of(
                input.document_hash@,
                input.blinder@,
            )
            &&& j.document_commitment.wf()
            &&& j.total_duplicates == total_duplicates_of(*input)
            &&& j.total_duplicates <= input.salts@.len()
        },
{
    if input.salts.len() != input.merkle_proofs.len() {
        return Err(InputError::LengthMismatch);
    }
    let blinder_commitment = sha256(&input.blinder);

    let mut document_preimage: Vec<u8> = Vec::new();
    append_bytes(&mut document_preimage, input.document_hash.as_bytes().as_slice());
    append_bytes(&mut document_preimage, input.blinder.as_slice());
    proof {
        assert(document_preimage@ =~= input.document_hash@ + input.blinder@);
    }
    let document_commitment = sha256(&document_preimage);

    let ghost salt_views: Seq<Seq<u8>> = input.salts@.map_values(|s: Vec<u8>| s@);
    let mut total_duplicates: u64 = 0;
    let n = input.salts.len();
    for i in 0..n
        invariant
            n == input.salts@.len(),
            n == input.merkle_proofs@.len(),
            salt_views == input.salts@.map_values(|s: Vec<u8>| s@),
            total_duplicates == duplicates_among(
                salt_views,
                input.merkle_proofs@,
                input.merkle_root@,
                input.blinder@,
                input.document_hash@,
                i as int,
            ),
            total_duplicates <= i,
    {
        let salt = &input.salts[i];
        let mut nullifier_preimage: Vec<u8> = Vec::new();
        append_bytes(&mut nullifier_preimage, salt.as_slice());
        append_bytes(&mut nullifier_preimage, input.blinder.as_slice());
        append_bytes(&mut nullifier_preimage, input.document_hash.as_bytes().as_slice());
        proof {
            assert(nullifier_preimage@ =~= salt@ + input.blinder@ + input.document_hash@);
            assert(salt_views[i as int] == salt@);
        }
        let nullifier = sha256(&nullifier_preimage);

        let mproof = &input.merkle_proofs[i];
        let is_verified = mproof.verify(&nullifier, &input.merkle_root);
        if is_verified {
            total_duplicates = total_duplicates + 1;
        }
    }
    Ok(CountNullifiersJournal { blinder_commitment, document_commitment, total_duplicates })
}

} // verus!
