use vstd::prelude::*;
use sha2::Digest;

verus! {

/// The ledger's hash of a byte string.
pub uninterp spec fn ledger_hash_of(b: Seq<u8>) -> Seq<u8>;

/// Relies on solana_program::hash::hash: the SHA-256 digest of the bytes,
/// which depends on the bytes alone.
#[verifier::external_body]
pub(crate) fn ledger_hash(b: &[u8]) -> (r: [u8; 32])
    ensures
        r@ == ledger_hash_of(b@),
{
    solana_program::hash::hash(b).to_bytes()
}

/// The SHA-256 digest of a byte string.
pub uninterp spec fn sha256_of(b: Seq<u8>) -> Seq<u8>;

/// Relies on sha2::Sha256: new, update and finalize give the digest of the
/// bytes, which depends on the bytes alone.
#[verifier::external_body]
pub(crate) fn sha256(b: &[u8]) -> (r: [u8; 32])
    ensures
        r@ == sha256_of(b@),
{
    let mut hasher = sha2::Sha256::new();
    hasher.update(b);
    hasher.finalize().into()
}

} // verus!
