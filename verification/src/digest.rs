//! The digest that tells identities apart.
use sha2::{Digest, Sha256};
use vstd::prelude::*;

verus! {

/// The longest input of SHA-256, in bytes: its length in bits is counted in 64 bits.
pub const MAX_DIGEST_INPUT: u64 = 0x1fff_ffff_ffff_ffff;

/// The SHA-256 digest of `data`.
pub uninterp spec fn sha256(data: Seq<u8>) -> Seq<u8>;

/// Calls `sha2::Sha256::digest`. It is claimed that the digest depends on the bytes of `data`
/// alone, and that it has 32 bytes. That different bytes have different digests is not claimed:
/// there are more inputs than digests. Input whose bits cannot be counted in 64 bits is left out.
#[verifier::external_body]
pub(crate) fn sha256_of(data: &[u8]) -> (digest: Vec<u8>)
    requires
        data@.len() <= MAX_DIGEST_INPUT,
    ensures
        digest@ == sha256(data@),
        digest@.len() == 32,
{
    Sha256::digest(data).to_vec()
}

} // verus!
