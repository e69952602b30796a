//! The fixed-width digest value type that all hashing in this crate produces.

use vstd::prelude::*;

verus! {

/// Number of bytes in a digest: the output width of the SHA-256 hash family.
pub const DIGEST_BYTES: usize = 32;

/// A fixed-width (32-byte) hash digest. Equality is byte-wise.
#[derive(Debug)]
pub struct Digest {
    bytes: Vec<u8>,
}

impl View for Digest {
    type V = Seq<u8>;

    closed spec fn view(&self) -> Seq<u8> {
        self.bytes@
    }
}

impl Digest {
    /// A digest is well formed when it holds exactly `DIGEST_BYTES` bytes.
    pub open spec fn wf(&self) -> bool {
        self@.len() == DIGEST_BYTES
    }

    /// Wraps a byte vector as a digest; any length other than
    /// `DIGEST_BYTES` is rejected.
    pub fn from_bytes(bytes: Vec<u8>) -> (r: Option<Digest>)
        ensures
            r is Some <==> bytes@.len() == DIGEST_BYTES,
            r matches Some(d) ==> d@ == bytes@ && d.wf(),
    {
        if bytes.len() == DIGEST_BYTES {
            Some(Digest { bytes })
        } else {
            None
        }
    }

    /// The digest's bytes, in order.
    pub fn as_bytes(&self) -> (r: &Vec<u8>)
        ensures
            r@ == self@,
    {
        &self.bytes
    }
}

impl Clone for Digest {
    fn clone(&self) -> (r: Self)
        ensures
            r@ == self@,
    {
        Digest { bytes: self.bytes.clone() }
    }
}

impl PartialEq for Digest {
    fn eq(&self, other: &Digest) -> (r: bool)
    {
        let r = self.bytes == other.bytes;
        proof {
            if r {
                assert(self@ =~= other@);
            } else {
                assert(!(self@ =~= other@));
            }
        }
        r
    }
}

impl Eq for Digest {
}

impl vstd::std_specs::cmp::PartialEqSpecImpl for Digest {
    open spec fn obeys_eq_spec() -> bool {
        true
    }

    open spec fn eq_spec(&self, other: &Digest) -> bool {
        self@ == other@
    }
}

} // verus!
