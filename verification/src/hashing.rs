//! The one-way hash primitive that commitments, nullifiers and Merkle
//! nodes are built from.

use vstd::prelude::*;

use crate::digest::Digest;
use crate::digest::DIGEST_BYTES;

verus! {

/// The SHA-256 digest (FIPS 180-4) of a byte sequence. The result is a
/// function of the input bytes alone.
pub uninterp spec fn sha256_of(input: Seq<u8>) -> Seq<u8>;

/// Relies on risc0_zkp's `Impl::hash_bytes`: the SHA-256 algorithm of
/// FIPS 180-4, deterministic in the input bytes alone, with a 32-byte
/// digest as its result.
#[verifier::external_body]
fn sha256_raw(input: &[u8]) -> (r: Vec<u8>)
    ensures
        r@ == sha256_of(input@),
        r@.len() == DIGEST_BYTES,
{
    <risc0_zkp::core::hash::sha::Impl as risc0_zkp::core::hash::sha::Sha256>::hash_bytes(input)
        .as_bytes()
        .to_vec()
}

/// Hashes a byte sequence with SHA-256.
pub fn sha256(input: &Vec<u8>) -> (d: Digest)
    ensures
        d@ == sha256_of(input@),
        d.wf(),
{
    let raw = sha256_raw(input.as_slice());
    match Digest::from_bytes(raw) {
        Some(d) => d,
        None => vstd::pervasive::unreached(),
    }
}

} // verus!
