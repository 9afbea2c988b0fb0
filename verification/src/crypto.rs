//! Symmetric encryption of network content: the shared group key of a network, and the
//! pairwise key of two members (end-to-end messages).
use vstd::prelude::*;
use crate::cipher::{aead_decrypt, aead_encrypt, chacha_open, chacha_seal, sealable};
use crate::encoding::{bs58_decode, bs58_encode, bs58_text, bs58_value};
use crate::entropy::{random_12, random_32};
use crate::error::CiviumError;
use crate::hashing::{blake3_derive_key, blake3_kdf};
use crate::text::owned;
use sha2::Digest;

verus! {

/// The SHA-512 digest of `input`.
pub uninterp spec fn sha512_digest(input: Seq<u8>) -> Seq<u8>;

/// The x-coordinate of `[scalar]P`, where `P` is the Montgomery form of the Ed25519
/// point whose compressed encoding is `point`; `None` when `point` does not decompress.
pub uninterp spec fn x25519_shared(scalar: Seq<u8>, point: Seq<u8>) -> Option<Seq<u8>>;

/// `sha2::Sha512::digest(input)`, a 64-byte digest named `sha512_digest`.
#[verifier::external_body]
fn sha512(input: &[u8; 32]) -> (d: [u8; 64])
    ensures
        d@ == sha512_digest(input@),
{
    let h = sha2::Sha512::digest(input);
    let mut d = [0u8; 64];
    d.copy_from_slice(&h);
    d
}

/// `Scalar::from_bytes_mod_order(scalar) * CompressedEdwardsY(point).decompress()?
/// .to_montgomery()`, as bytes (curve25519-dalek); `None` when the point does not
/// decompress. The result is named `x25519_shared`.
#[verifier::external_body]
fn montgomery_mul(scalar: [u8; 32], point: [u8; 32]) -> (r: Option<[u8; 32]>)
    ensures
        r matches Some(b) ==> x25519_shared(scalar@, point@) == Some(b@),
        r is None ==> x25519_shared(scalar@, point@) is None,
{
    let s = curve25519_dalek::scalar::Scalar::from_bytes_mod_order(scalar);
    let e = curve25519_dalek::edwards::CompressedEdwardsY(point).decompress()?;
    Some((&s * &e.to_montgomery()).to_bytes())
}

/// What decrypting the Base58 pair (`nonce_b58`, `ciphertext_b58`) under `key` gives:
/// the plaintext, or `None` when either text is not Base58 or authentication fails.
pub open spec fn open_b58(key: Seq<u8>, nonce_b58: Seq<char>, ciphertext_b58: Seq<char>) -> Option<Seq<u8>> {
    match (bs58_value(nonce_b58), bs58_value(ciphertext_b58)) {
        (Some(n), Some(c)) => chacha_open(key, n, c),
        _ => None,
    }
}

/// The nonce text decodes to something other than 12 bytes (`Nonce::from_slice` would panic).
pub open spec fn bad_nonce(nonce_b58: Seq<char>) -> bool {
    bs58_value(nonce_b58) matches Some(n) && n.len() != 12
}

/// Encrypts `plaintext` under `key` with the 12-byte `nonce`; returns the Base58 texts
/// of the nonce and of the ciphertext.
fn seal_b58(key: &[u8; 32], nonce: &[u8; 12], plaintext: &[u8]) -> (r: Result<(String, String), CiviumError>)
    ensures
        r is Ok <==> sealable(plaintext@),
        r matches Ok((n, c)) ==> {
            &&& n@ == bs58_text(nonce@)
            &&& c@ == bs58_text(chacha_seal(key@, nonce@, plaintext@))
            &&& open_b58(key@, n@, c@) == Some(plaintext@)
            &&& !bad_nonce(n@)
        },
        r matches Err(e) ==> e is Crypto,
{
    match aead_encrypt(key, nonce, plaintext) {
        None => Err(CiviumError::Crypto(owned("encryption failed"))),
        Some(ct) => {
            let n = bs58_encode(nonce);
            let c = bs58_encode(ct.as_slice());
            Ok((n, c))
        },
    }
}

/// Decrypts the Base58 pair under `key`.
fn open_with(key: &[u8; 32], nonce_b58: &str, ciphertext_b58: &str) -> (r: Result<Vec<u8>, CiviumError>)
    requires
        !bad_nonce(nonce_b58@),
    ensures
        r is Ok <==> open_b58(key@, nonce_b58@, ciphertext_b58@) is Some,
        r matches Ok(p) ==> open_b58(key@, nonce_b58@, ciphertext_b58@) == Some(p@),
        r matches Err(e) ==> e is Crypto,
{
    let nonce = match bs58_decode(nonce_b58) {
        None => return Err(CiviumError::Crypto(owned("invalid base58 nonce"))),
        Some(n) => n,
    };
    let ct = match bs58_decode(ciphertext_b58) {
        None => return Err(CiviumError::Crypto(owned("invalid base58 ciphertext"))),
        Some(c) => c,
    };
    match aead_decrypt(key, nonce.as_slice(), ct.as_slice()) {
        None => Err(CiviumError::Crypto(owned("decryption failed — wrong key or corrupted data"))),
        Some(p) => Ok(p),
    }
}

/// Whether the nonce text decodes to something other than 12 bytes.
pub fn nonce_is_bad(nonce_b58: &str) -> (b: bool)
    ensures
        b == bad_nonce(nonce_b58@),
{
    match bs58_decode(nonce_b58) {
        Some(n) => n.len() != 12,
        None => false,
    }
}

/// A network's symmetric group key (ChaCha20-Poly1305), shared by all its members.
pub struct GroupKey {
    key: [u8; 32],
}

impl GroupKey {
    /// The 32 key bytes.
    pub closed spec fn key_view(&self) -> Seq<u8> {
        self.key@
    }

    /// A fresh random key of 32 bytes from the operating system's random source.
    pub fn generate() -> (k: GroupKey)
        ensures
            k.key_view().len() == 32,
    {
        GroupKey { key: random_32() }
    }

    /// The key of the given 32 bytes.
    pub fn from_bytes(bytes: [u8; 32]) -> (k: GroupKey)
        ensures
            k.key_view() == bytes@,
    {
        GroupKey { key: bytes }
    }

    /// Parses a Base58 key; a `Crypto` error when the text is empty, not Base58, or not
    /// 32 bytes long.
    pub fn from_b58(s: &str) -> (r: Result<GroupKey, CiviumError>)
        ensures
            r is Ok <==> (s@.len() > 0 && (bs58_value(s@) matches Some(b) && b.len() == 32)),
            r is Ok <==> group_key_text(s@) is Some,
            r matches Ok(k) ==> bs58_value(s@) == Some(k.key_view()) && group_key_text(s@) == Some(k.key_view()),
            r matches Err(e) ==> e is Crypto,
    {
        if s.unicode_len() == 0 {
            return Err(CiviumError::Crypto(owned("no group key — network created before group keys existed, please recreate it")));
        }
        match bs58_decode(s) {
            None => Err(CiviumError::Crypto(owned("invalid base58 group key"))),
            Some(b) => {
                if b.len() != 32 {
                    Err(CiviumError::Crypto(owned("group key must be 32 bytes")))
                } else {
                    Ok(GroupKey { key: crate::identity::array32(&b) })
                }
            },
        }
    }

    /// The Base58 text of the key.
    pub fn to_b58(&self) -> (s: String)
        ensures
            s@ == bs58_text(self.key_view()),
            s@.len() >= 32,
            bs58_value(s@) == Some(self.key_view()),
            self.key_view().len() == 32,
    {
        bs58_encode(&self.key)
    }

    /// Encrypts `plaintext` with the given 12-byte nonce; returns (nonce, ciphertext) in
    /// Base58. Decrypting the pair with this key gives back the plaintext.
    pub fn encrypt_with_nonce(&self, plaintext: &[u8], nonce: &[u8; 12]) -> (r: Result<(String, String), CiviumError>)
        ensures
            r is Ok <==> sealable(plaintext@),
            r matches Ok((n, c)) ==> {
                &&& n@ == bs58_text(nonce@)
                &&& c@ == bs58_text(chacha_seal(self.key_view(), nonce@, plaintext@))
                &&& open_b58(self.key_view(), n@, c@) == Some(plaintext@)
                &&& !bad_nonce(n@)
            },
            r matches Err(e) ==> e is Crypto,
    {
        seal_b58(&self.key, nonce, plaintext)
    }

    /// Encrypts `plaintext` with a fresh random nonce; returns (nonce, ciphertext) in
    /// Base58. Decrypting the pair with this key gives back the plaintext.
    pub fn encrypt(&self, plaintext: &[u8]) -> (r: Result<(String, String), CiviumError>)
        ensures
            r is Ok <==> sealable(plaintext@),
            r matches Ok((n, c)) ==> open_b58(self.key_view(), n@, c@) == Some(plaintext@)
                && !bad_nonce(n@),
            r matches Err(e) ==> e is Crypto,
    {
        let nonce = random_12();
        self.encrypt_with_nonce(plaintext, &nonce)
    }

    /// Decrypts a (nonce, ciphertext) pair in Base58; a `Crypto` error when either is not
    /// Base58 or authentication fails (wrong key or corrupted data). The nonce must not
    /// decode to anything but 12 bytes.
    pub fn decrypt(&self, nonce_b58: &str, ciphertext_b58: &str) -> (r: Result<Vec<u8>, CiviumError>)
        requires
            !bad_nonce(nonce_b58@),
        ensures
            r is Ok <==> open_b58(self.key_view(), nonce_b58@, ciphertext_b58@) is Some,
            r matches Ok(p) ==> open_b58(self.key_view(), nonce_b58@, ciphertext_b58@) == Some(p@),
            r matches Err(e) ==> e is Crypto,
    {
        open_with(&self.key, nonce_b58, ciphertext_b58)
    }

    /// `decrypt`, with a nonce of the wrong length refused as a `Crypto` error.
    pub fn decrypt_checked(&self, nonce_b58: &str, ciphertext_b58: &str) -> (r: Result<Vec<u8>, CiviumError>)
        ensures
            bad_nonce(nonce_b58@) ==> (r matches Err(e) && e is Crypto),
            !bad_nonce(nonce_b58@) ==> (r is Ok <==> open_b58(self.key_view(), nonce_b58@, ciphertext_b58@) is Some),
            r matches Ok(p) ==> open_b58(self.key_view(), nonce_b58@, ciphertext_b58@) == Some(p@),
            r matches Err(e) ==> e is Crypto,
    {
        if nonce_is_bad(nonce_b58) {
            Err(CiviumError::Crypto(owned("nonce must be 12 bytes")))
        } else {
            self.decrypt(nonce_b58, ciphertext_b58)
        }
    }
}

/// The key that a Base58 key text stands for: none when the text is empty, not Base58,
/// or not 32 bytes long.
pub open spec fn group_key_text(s: Seq<char>) -> Option<Seq<u8>> {
    if s.len() > 0 && (bs58_value(s) matches Some(b) && b.len() == 32) {
        bs58_value(s)
    } else {
        None
    }
}

/// Parsing the text of a key gives back the key: the text that `GroupKey::to_b58` writes
/// (at least 32 characters, decoding to the key) stands for that key.
pub proof fn lemma_group_key_text_round_trip(k: GroupKey, s: Seq<char>)
    requires
        s.len() >= 32,
        bs58_value(s) == Some(k.key_view()),
    ensures
        group_key_text(s) == Some(k.key_view()),
{
    assert(k.key_view().len() == 32);
}

/// Decrypting what a key encrypted gives back the plaintext: if `n` and `c` are the
/// Base58 texts of a 12-byte nonce and of the sealed `plaintext`, opening them under the
/// same key yields `plaintext`.
pub proof fn lemma_seal_then_open(key: Seq<u8>, nonce: Seq<u8>, plaintext: Seq<u8>, n: Seq<char>, c: Seq<char>)
    requires
        bs58_value(n) == Some(nonce),
        bs58_value(c) == Some(chacha_seal(key, nonce, plaintext)),
        chacha_open(key, nonce, chacha_seal(key, nonce, plaintext)) == Some(plaintext),
    ensures
        open_b58(key, n, c) == Some(plaintext),
{
}

/// Clamps the first half of a SHA-512 digest into an X25519 scalar.
pub open spec fn clamp_scalar(h: Seq<u8>) -> Seq<u8> {
    h.subrange(0, 32).update(0, h[0] & 248u8).update(31, (h[31] & 127u8) | 64u8)
}

/// Context string of the end-to-end key derivation.
pub const E2E_CONTEXT: &'static str = "civium e2e pair v0";

/// The pairwise key of `secret` (ours) and `their_pub` (theirs), or `None` when their
/// key is not an Ed25519 point.
pub open spec fn pair_key_of(secret: Seq<u8>, their_pub: Seq<u8>) -> Option<Seq<u8>> {
    match x25519_shared(clamp_scalar(sha512_digest(secret)), their_pub) {
        Some(dh) => Some(blake3_kdf(E2E_CONTEXT@, dh)),
        None => None,
    }
}

/// The X25519 shared secret of our Ed25519 secret key and their Ed25519 public key:
/// our scalar is the clamped first half of SHA-512 of the secret.
fn ed25519_x25519_dh(our_secret: &[u8; 32], their_pub: &[u8; 32]) -> (r: Option<[u8; 32]>)
    ensures
        r matches Some(b) ==> x25519_shared(clamp_scalar(sha512_digest(our_secret@)), their_pub@) == Some(b@),
        r is None ==> x25519_shared(clamp_scalar(sha512_digest(our_secret@)), their_pub@) is None,
{
    let h = sha512(our_secret);
    proof {
        assert(h@.len() == 64);
    }
    let mut s = [0u8; 32];
    let mut i: usize = 0;
    while i < 32
        invariant
            i <= 32,
            h@.len() == 64,
            forall|k: int| 0 <= k < i ==> s@[k] == h@[k],
        decreases 32 - i,
    {
        s[i] = h[i];
        i = i + 1;
    }
    s[0] = s[0] & 248u8;
    s[31] = (s[31] & 127u8) | 64u8;
    proof {
        assert(s@ =~= clamp_scalar(h@));
    }
    montgomery_mul(s, *their_pub)
}

/// A pairwise end-to-end key between two members, derived by Diffie-Hellman from our
/// Ed25519 secret key and their Ed25519 public key.
pub struct PairKey {
    key: [u8; 32],
}

impl PairKey {
    /// The 32 key bytes.
    pub closed spec fn key_view(&self) -> Seq<u8> {
        self.key@
    }

    /// Derives the pairwise key; a `Crypto` error when their key is not a valid point.
    pub fn derive(our_secret_bytes: &[u8; 32], their_pub_key_bytes: &[u8; 32]) -> (r: Result<PairKey, CiviumError>)
        ensures
            r is Ok <==> pair_key_of(our_secret_bytes@, their_pub_key_bytes@) is Some,
            r matches Ok(k) ==> pair_key_of(our_secret_bytes@, their_pub_key_bytes@) == Some(k.key_view()),
            r matches Err(e) ==> e is Crypto,
    {
        match ed25519_x25519_dh(our_secret_bytes, their_pub_key_bytes) {
            None => Err(CiviumError::Crypto(owned("E2E DH failed: invalid Ed25519 public key (not on curve)"))),
            Some(dh) => Ok(PairKey { key: blake3_derive_key(E2E_CONTEXT, &dh) }),
        }
    }

    /// Encrypts `plaintext` with a fresh random nonce; returns (nonce, ciphertext) in
    /// Base58. Decrypting the pair with this key gives back the plaintext.
    pub fn encrypt(&self, plaintext: &[u8]) -> (r: Result<(String, String), CiviumError>)
        ensures
            r is Ok <==> sealable(plaintext@),
            r matches Ok((n, c)) ==> open_b58(self.key_view(), n@, c@) == Some(plaintext@)
                && !bad_nonce(n@),
            r matches Err(e) ==> e is Crypto,
    {
        let nonce = random_12();
        seal_b58(&self.key, &nonce, plaintext)
    }

    /// Decrypts a (nonce, ciphertext) pair in Base58; a `Crypto` error when either is not
    /// Base58 or authentication fails. The nonce must not decode to anything but 12 bytes.
    pub fn decrypt(&self, nonce_b58: &str, ciphertext_b58: &str) -> (r: Result<Vec<u8>, CiviumError>)
        requires
            !bad_nonce(nonce_b58@),
        ensures
            r is Ok <==> open_b58(self.key_view(), nonce_b58@, ciphertext_b58@) is Some,
            r matches Ok(p) ==> open_b58(self.key_view(), nonce_b58@, ciphertext_b58@) == Some(p@),
            r matches Err(e) ==> e is Crypto,
    {
        open_with(&self.key, nonce_b58, ciphertext_b58)
    }

    /// `decrypt`, with a nonce of the wrong length refused as a `Crypto` error.
    pub fn decrypt_checked(&self, nonce_b58: &str, ciphertext_b58: &str) -> (r: Result<Vec<u8>, CiviumError>)
        ensures
            bad_nonce(nonce_b58@) ==> (r matches Err(e) && e is Crypto),
            !bad_nonce(nonce_b58@) ==> (r is Ok <==> open_b58(self.key_view(), nonce_b58@, ciphertext_b58@) is Some),
            r matches Ok(p) ==> open_b58(self.key_view(), nonce_b58@, ciphertext_b58@) == Some(p@),
            r matches Err(e) ==> e is Crypto,
    {
        if nonce_is_bad(nonce_b58) {
            Err(CiviumError::Crypto(owned("nonce must be 12 bytes")))
        } else {
            self.decrypt(nonce_b58, ciphertext_b58)
        }
    }
}

} // verus!
