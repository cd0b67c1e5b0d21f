//! SHA-256, as computed by the `sha2` crate.
use vstd::prelude::*;
use sha2::Digest;

verus! {

/// The SHA-256 digest of `data`, as the `sha2` crate computes it.
pub uninterp spec fn sha256_of(data: Seq<u8>) -> [u8; 32];

/// Calls `sha2::Sha256::digest`. The contract claims only that the 32-byte digest is a
/// function of the input bytes (named `sha256_of`); SHA-256 itself is not restated.
#[verifier::external_body]
pub fn sha256(data: &[u8]) -> (r: [u8; 32])
    ensures
        r == sha256_of(data@),
{
    sha2::Sha256::digest(data).into()
}

} // verus!
