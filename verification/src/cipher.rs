//! ChaCha20-Poly1305 authenticated encryption, through the `chacha20poly1305` crate.
use vstd::prelude::*;
use chacha20poly1305::aead::{Aead, KeyInit};

verus! {

/// The ciphertext (with its 16-byte tag appended) that ChaCha20-Poly1305 produces
/// for `key`, `nonce` and `plaintext`, with no associated data.
pub uninterp spec fn chacha_seal(key: Seq<u8>, nonce: Seq<u8>, plaintext: Seq<u8>) -> Seq<u8>;

/// What ChaCha20-Poly1305 decryption gives for `key`, `nonce` and `ciphertext`:
/// the plaintext, or `None` when authentication fails.
pub uninterp spec fn chacha_open(key: Seq<u8>, nonce: Seq<u8>, ciphertext: Seq<u8>) -> Option<Seq<u8>>;

/// ChaCha20-Poly1305 encrypts a plaintext when it spans fewer than
/// `u32::MAX` blocks of 64 bytes (the block counter must not overflow).
pub open spec fn sealable(plaintext: Seq<u8>) -> bool {
    plaintext.len() / 64 < 0xFFFF_FFFF
}

/// `ChaCha20Poly1305::new(key).encrypt(nonce, plaintext)`, with the error mapped to `None`.
/// The crate refuses a plaintext of `u32::MAX` or more 64-byte blocks and fails in no
/// other case (the output `Vec` always takes the tag), hence `sealable`.
/// `Key::from_slice` and `Nonce::from_slice` panic unless the lengths are 32 and 12,
/// hence the `requires`. The ciphertext is named `chacha_seal`; it is the plaintext's
/// length plus the 16-byte tag, and decrypting it under the same key and nonce gives back
/// the plaintext (the cipher's correctness).
#[verifier::external_body]
pub(crate) fn aead_encrypt(key: &[u8], nonce: &[u8], plaintext: &[u8]) -> (r: Option<Vec<u8>>)
    requires
        key@.len() == 32,
        nonce@.len() == 12,
    ensures
        r is Some <==> sealable(plaintext@),
        r matches Some(c) ==> c@ == chacha_seal(key@, nonce@, plaintext@),
        r matches Some(c) ==> chacha_open(key@, nonce@, c@) == Some(plaintext@),
        r matches Some(c) ==> c@.len() == plaintext@.len() + 16,
{
    let cipher = chacha20poly1305::ChaCha20Poly1305::new(chacha20poly1305::Key::from_slice(key));
    cipher.encrypt(chacha20poly1305::Nonce::from_slice(nonce), plaintext).ok()
}

/// `ChaCha20Poly1305::new(key).decrypt(nonce, ciphertext)`, with the error mapped to `None`.
/// The outcome is named `chacha_open`.
#[verifier::external_body]
pub(crate) fn aead_decrypt(key: &[u8], nonce: &[u8], ciphertext: &[u8]) -> (r: Option<Vec<u8>>)
    requires
        key@.len() == 32,
        nonce@.len() == 12,
    ensures
        r matches Some(p) ==> chacha_open(key@, nonce@, ciphertext@) == Some(p@),
        r is None ==> chacha_open(key@, nonce@, ciphertext@) is None,
{
    let cipher = chacha20poly1305::ChaCha20Poly1305::new(chacha20poly1305::Key::from_slice(key));
    cipher.decrypt(chacha20poly1305::Nonce::from_slice(nonce), ciphertext).ok()
}

} // verus!
