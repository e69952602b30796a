//! Privacy-preserving duplicate counting over a Merkle nullifier accumulator.
//!
//! The crate derives two hash commitments that bind a caller to a secret
//! document/blinder pair, derives a nullifier digest for each caller-supplied
//! salt, checks each nullifier's Merkle inclusion proof against a public
//! accumulator root, and reports how many of the claimed nullifiers are
//! already present in the accumulated set.

pub mod bytes;
pub mod codec;
pub mod count;
pub mod digest;
pub mod hashing;
pub mod merkle;

pub use digest::Digest;
