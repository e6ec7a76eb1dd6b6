//! SHA-256 hashing through `solana_sha256_hasher`.

use vstd::prelude::*;

verus! {

/// The SHA-256 digest of a byte string, as `solana_sha256_hasher::hash`
/// computes it.
pub uninterp spec fn sha256(data: Seq<u8>) -> Seq<u8>;

/// Trusted: `solana_sha256_hasher::hash`. The contract claims only that the
/// 32-byte digest is the named function of the hashed bytes (same bytes, same
/// digest); what SHA-256 computes is not stated.
#[verifier::external_body]
pub(crate) fn hash(data: &[u8]) -> (digest: [u8; 32])
    ensures
        digest@ == sha256(data@),
{
    solana_sha256_hasher::hash(data).to_bytes()
}

} // verus!
