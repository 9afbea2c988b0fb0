//! BLAKE3 hashing and key derivation, through the `blake3` crate.
use vstd::prelude::*;

verus! {

/// The 32-byte BLAKE3 digest of `input`.
pub uninterp spec fn blake3_digest(input: Seq<u8>) -> Seq<u8>;

/// The 32-byte key that BLAKE3's key derivation mode gives for `context` and `material`.
pub uninterp spec fn blake3_kdf(context: Seq<char>, material: Seq<u8>) -> Seq<u8>;

/// `blake3::hash(input).as_bytes()`: the 32-byte digest, named `blake3_digest`.
#[verifier::external_body]
pub(crate) fn blake3_hash(input: &[u8]) -> (d: [u8; 32])
    ensures
        d@ == blake3_digest(input@),
{
    *blake3::hash(input).as_bytes()
}

/// `blake3::derive_key(context, material)`: a 32-byte key, named `blake3_kdf`.
#[verifier::external_body]
pub(crate) fn blake3_derive_key(context: &str, material: &[u8]) -> (k: [u8; 32])
    ensures
        k@ == blake3_kdf(context@, material@),
{
    blake3::derive_key(context, material)
}

} // verus!
