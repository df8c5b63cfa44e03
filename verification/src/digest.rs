//! SHA-256, as the library uses it.

use vstd::prelude::*;
use sha2::{Digest, Sha256};

verus! {

/// The SHA-256 digest of a byte string.
pub uninterp spec fn sha256_of(data: Seq<u8>) -> Seq<u8>;

/// `sha2::Sha256::digest`. Trusted: the digest is a function of the bytes
/// alone (feeding the same bytes in several `update` calls gives the same
/// digest, which is why callers may hash a concatenation). What the digest
/// is on given bytes is not stated.
#[verifier::external_body]
pub(crate) fn sha256(data: &[u8]) -> (res: [u8; 32])
    ensures
        res@ == sha256_of(data@),
{
    Sha256::digest(data).into()
}

} // verus!
