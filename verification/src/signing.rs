//! Ed25519 keys and signatures, through `libp2p::identity::ed25519`.
use vstd::prelude::*;

verus! {

/// The 32-byte Ed25519 public key of the 32-byte secret key `secret`.
pub uninterp spec fn ed25519_public(secret: Seq<u8>) -> Seq<u8>;

/// The (deterministic) Ed25519 signature of `msg` under the secret key `secret`.
pub uninterp spec fn ed25519_signature(secret: Seq<u8>, msg: Seq<u8>) -> Seq<u8>;

/// Whether Ed25519 verification accepts signature `sig` of `msg` under public key `public`.
pub uninterp spec fn ed25519_accepts(public: Seq<u8>, msg: Seq<u8>, sig: Seq<u8>) -> bool;

/// Whether `public` parses as an Ed25519 public key (`PublicKey::try_from_bytes`).
pub uninterp spec fn ed25519_key_valid(public: Seq<u8>) -> bool;

/// The public key of a secret key: `Keypair::from(SecretKey::try_from_bytes(secret))
/// .public().to_bytes()`. `SecretKey::try_from_bytes` accepts every 32-byte input, and
/// the derived public key parses again (`PublicKey::try_from_bytes`).
#[verifier::external_body]
pub(crate) fn ed25519_public_key(secret: &[u8; 32]) -> (pk: [u8; 32])
    ensures
        pk@ == ed25519_public(secret@),
        ed25519_key_valid(pk@),
{
    let sk = libp2p::identity::ed25519::SecretKey::try_from_bytes(*secret).expect("32 bytes");
    libp2p::identity::ed25519::Keypair::from(sk).public().to_bytes()
}

/// `Keypair::sign`: the Ed25519 signature of `msg` (Ed25519 signing is deterministic).
/// Verification with the matching public key accepts it (Ed25519's correctness).
#[verifier::external_body]
pub(crate) fn ed25519_sign(secret: &[u8; 32], msg: &[u8]) -> (sig: Vec<u8>)
    ensures
        sig@ == ed25519_signature(secret@, msg@),
        ed25519_accepts(ed25519_public(secret@), msg@, sig@),
{
    let sk = libp2p::identity::ed25519::SecretKey::try_from_bytes(*secret).expect("32 bytes");
    libp2p::identity::ed25519::Keypair::from(sk).sign(msg)
}

/// `PublicKey::try_from_bytes(public)` followed by `verify(msg, sig)`: `None` when the
/// key does not parse, else whether the signature verifies.
#[verifier::external_body]
pub(crate) fn ed25519_verify(public: &[u8], msg: &[u8], sig: &[u8]) -> (r: Option<bool>)
    ensures
        r is Some <==> ed25519_key_valid(public@),
        r matches Some(ok) ==> ok == ed25519_accepts(public@, msg@, sig@),
{
    match libp2p::identity::ed25519::PublicKey::try_from_bytes(public) {
        Ok(pk) => Some(pk.verify(msg, sig)),
        Err(_) => None,
    }
}

/// A fresh random Ed25519 secret key (`Keypair::generate().secret()`).
#[verifier::external_body]
pub(crate) fn ed25519_generate() -> (secret: [u8; 32]) {
    let kp = libp2p::identity::ed25519::Keypair::generate();
    let bytes: [u8; 32] = kp.secret().as_ref().try_into().expect("32 bytes");
    bytes
}

} // verus!
