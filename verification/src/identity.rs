//! Member and network identities: Ed25519 keypairs and the Civium identifiers (CIDs)
//! derived from their public keys.
use vstd::prelude::*;
use crate::encoding::{bs58_decode, bs58_encode, bs58_text, bs58_value};
use crate::error::CiviumError;
use crate::hashing::{blake3_digest, blake3_hash};
use crate::signing::{
    ed25519_accepts, ed25519_generate, ed25519_key_valid, ed25519_public, ed25519_public_key,
    ed25519_sign, ed25519_signature,
};
use crate::text::{append_str, take_chars, take_prefix};

verus! {

/// The text every CID starts with.
pub open spec fn cid_prefix() -> Seq<char> {
    seq!['c', 'i', 'v', '1']
}

/// Number of Base58 characters kept in a short CID.
pub const SHORT_SUFFIX_LEN: usize = 8;

/// The full CID of a public key: `civ1` followed by the Base58 text of its BLAKE3 digest.
pub open spec fn cid_full_of(pub_key: Seq<u8>) -> Seq<char> {
    cid_prefix() + bs58_text(blake3_digest(pub_key))
}

/// The short CID of a public key: `civ1` followed by the first 8 Base58 characters of
/// its BLAKE3 digest (all of them if there are fewer).
pub open spec fn cid_short_of(pub_key: Seq<u8>) -> Seq<char> {
    cid_prefix() + take_chars(bs58_text(blake3_digest(pub_key)), SHORT_SUFFIX_LEN as nat)
}

/// Civium identifier, derived from an Ed25519 public key via BLAKE3 and Base58.
pub struct Cid {
    raw: [u8; 32],
    full: String,
    short: String,
}

impl Cid {
    /// The raw 32-byte digest.
    pub closed spec fn raw_view(&self) -> Seq<u8> {
        self.raw@
    }

    /// The full CID text.
    pub closed spec fn full_view(&self) -> Seq<char> {
        self.full@
    }

    /// The short CID text.
    pub closed spec fn short_view(&self) -> Seq<char> {
        self.short@
    }

    /// The CID of the public key `pub_key`.
    pub fn from_public_key_bytes(pub_key: &[u8; 32]) -> (c: Cid)
        ensures
            c.raw_view() == blake3_digest(pub_key@),
            c.full_view() == cid_full_of(pub_key@),
            c.short_view() == cid_short_of(pub_key@),
            c.short_view().len() == 12,
            c.short_view() == c.full_view().subrange(0, 12),
    {
        let raw = blake3_hash(pub_key);
        let b58 = bs58_encode(&raw);
        let mut full = String::new();
        let mut short = String::new();
        proof {
            reveal_strlit("civ1");
        }
        append_str(&mut full, "civ1");
        append_str(&mut short, "civ1");
        append_str(&mut full, b58.as_str());
        let suffix = take_prefix(b58.as_str(), SHORT_SUFFIX_LEN);
        append_str(&mut short, suffix.as_str());
        Cid { raw, full, short }
    }

    /// The CID written in full text: `civ1` followed by the Base58 text of a 32-byte
    /// digest; an `Identity` error otherwise. The short form keeps `civ1` and eight more
    /// characters.
    pub fn from_full(full: &str) -> (r: Result<Cid, CiviumError>)
        ensures
            r is Ok <==> (crate::text::has_prefix(full@, cid_prefix()) && (bs58_value(full@.skip(4)) matches Some(b) && b.len() == 32)),
            r matches Ok(c) ==> c.full_view() == full@ && Some(c.raw_view()) == bs58_value(full@.skip(4))
                && c.short_view() == cid_prefix() + take_chars(full@.skip(4), SHORT_SUFFIX_LEN as nat),
            r matches Err(e) ==> e is Identity,
    {
        proof {
            reveal_strlit("civ1");
            assert("civ1"@ =~= cid_prefix());
        }
        let rest = match crate::text::strip_prefix(full, "civ1") {
            None => return Err(CiviumError::Identity(String::from_str("CID must start with civ1"))),
            Some(r) => r,
        };
        assert(rest@ =~= full@.skip(4));
        let raw = match bs58_decode(rest.as_str()) {
            None => return Err(CiviumError::Identity(String::from_str("invalid base58 in CID"))),
            Some(b) => b,
        };
        if raw.len() != 32 {
            return Err(CiviumError::Identity(String::from_str("CID digest must be 32 bytes")));
        }
        let arr = array32(&raw);
        let mut short = String::new();
        append_str(&mut short, "civ1");
        let suffix = take_prefix(rest.as_str(), SHORT_SUFFIX_LEN);
        append_str(&mut short, suffix.as_str());
        Ok(Cid { raw: arr, full: String::from_str(full), short })
    }

    /// The full CID text.
    pub fn full(&self) -> (s: &str)
        ensures
            s@ == self.full_view(),
    {
        self.full.as_str()
    }

    /// The short CID text.
    pub fn short(&self) -> (s: &str)
        ensures
            s@ == self.short_view(),
    {
        self.short.as_str()
    }

    /// The raw 32-byte digest.
    pub fn raw_bytes(&self) -> (b: &[u8; 32])
        ensures
            b@ == self.raw_view(),
    {
        &self.raw
    }

    /// The short CID, as the identifier is displayed.
    pub fn to_display_string(&self) -> (s: String)
        ensures
            s@ == self.short_view(),
    {
        self.short.clone()
    }
}

/// The short CID is the full CID cut after `civ1` and eight more characters.
pub proof fn lemma_short_cid_is_prefix_of_full(pub_key: Seq<u8>)
    ensures
        crate::text::has_prefix(cid_full_of(pub_key), cid_short_of(pub_key)),
        crate::text::has_prefix(cid_short_of(pub_key), cid_prefix()),
{
    let b = bs58_text(blake3_digest(pub_key));
    let t = take_chars(b, SHORT_SUFFIX_LEN as nat);
    assert(cid_full_of(pub_key).subrange(0, cid_short_of(pub_key).len() as int) =~= cid_prefix() + t);
    assert(cid_short_of(pub_key).subrange(0, 4) =~= cid_prefix());
}

/// Converts a 32-byte vector into an array.
pub fn array32(v: &Vec<u8>) -> (a: [u8; 32])
    requires
        v@.len() == 32,
    ensures
        a@ == v@,
{
    let mut a = [0u8; 32];
    let mut i: usize = 0;
    while i < 32
        invariant
            v@.len() == 32,
            i <= 32,
            forall|k: int| 0 <= k < i ==> a@[k] == v@[k],
        decreases 32 - i,
    {
        a[i] = v[i];
        i = i + 1;
    }
    assert(a@ =~= v@);
    a
}

/// A member or network identity: an Ed25519 secret key and its public key.
pub struct CiviumKeypair {
    secret: [u8; 32],
    pub_key: [u8; 32],
}

impl CiviumKeypair {
    /// The secret key bytes.
    pub closed spec fn secret_view(&self) -> Seq<u8> {
        self.secret@
    }

    /// The public key bytes.
    pub closed spec fn public_view(&self) -> Seq<u8> {
        self.pub_key@
    }

    /// The public key is the one that belongs to the secret key.
    #[verifier::type_invariant]
    pub closed spec fn matching_keys(&self) -> bool {
        &&& self.pub_key@ == ed25519_public(self.secret@)
        &&& ed25519_key_valid(self.pub_key@)
    }

    /// A fresh random keypair.
    pub fn generate() -> (r: Result<CiviumKeypair, CiviumError>)
        ensures
            r is Ok,
    {
        let secret = ed25519_generate();
        Self::from_secret_bytes(secret)
    }

    /// The keypair of the 32-byte secret key `bytes`.
    pub fn from_secret_bytes(bytes: [u8; 32]) -> (r: Result<CiviumKeypair, CiviumError>)
        ensures
            r is Ok,
            r matches Ok(k) ==> k.secret_view() == bytes@ && k.public_view() == ed25519_public(
                bytes@,
            ),
    {
        let pub_key = ed25519_public_key(&bytes);
        Ok(CiviumKeypair { secret: bytes, pub_key })
    }

    /// The keypair of a Base58-encoded 32-byte secret key; an `Identity` error when the
    /// text is not Base58 or does not decode to exactly 32 bytes.
    pub fn from_secret_b58(s: &str) -> (r: Result<CiviumKeypair, CiviumError>)
        ensures
            r is Ok <==> restored_secret(s@) is Some,
            r matches Ok(k) ==> Some(k.secret_view()) == restored_secret(s@) && k.public_view()
                == ed25519_public(k.secret_view()),
            r matches Err(e) ==> e is Identity,
    {
        match bs58_decode(s) {
            None => Err(CiviumError::Identity(String::from_str("invalid base58 secret key"))),
            Some(bytes) => {
                if bytes.len() != 32 {
                    Err(CiviumError::Identity(String::from_str("secret key must be 32 bytes")))
                } else {
                    let arr = array32(&bytes);
                    Self::from_secret_bytes(arr)
                }
            },
        }
    }

    /// The CID of this identity's public key.
    pub fn cid(&self) -> (c: Cid)
        ensures
            c.full_view() == cid_full_of(self.public_view()),
            c.short_view() == cid_short_of(self.public_view()),
            c.raw_view() == blake3_digest(self.public_view()),
    {
        Cid::from_public_key_bytes(&self.pub_key)
    }

    /// Signs `msg` with the secret key (Ed25519); the signature verifies under the
    /// public key.
    pub fn sign(&self, msg: &[u8]) -> (sig: Vec<u8>)
        ensures
            sig@ == ed25519_signature(self.secret_view(), msg@),
            ed25519_accepts(self.public_view(), msg@, sig@),
    {
        proof {
            use_type_invariant(self);
        }
        ed25519_sign(&self.secret, msg)
    }

    /// The 32-byte public key.
    pub fn public_key_bytes(&self) -> (b: &[u8; 32])
        ensures
            b@ == self.public_view(),
            b@ == ed25519_public(self.secret_view()),
            ed25519_key_valid(b@),
    {
        proof {
            use_type_invariant(self);
        }
        &self.pub_key
    }

    /// The 32-byte secret key.
    pub fn secret_bytes(&self) -> (b: &[u8; 32])
        ensures
            b@ == self.secret_view(),
    {
        &self.secret
    }

    /// Base58 text of the secret key (to be stored like a password).
    pub fn secret_b58(&self) -> (s: String)
        ensures
            s@ == bs58_text(self.secret_view()),
            bs58_value(s@) == Some(self.secret_view()),
            restored_secret(s@) == Some(self.secret_view()),
    {
        bs58_encode(&self.secret)
    }

    /// Base58 text of the public key.
    pub fn pub_key_b58(&self) -> (s: String)
        ensures
            s@ == bs58_text(self.public_view()),
            bs58_value(s@) == Some(self.public_view()),
    {
        bs58_encode(&self.pub_key)
    }
}

/// The secret key that `from_secret_b58` restores from `text`: the Base58-decoded bytes,
/// when there are exactly 32 of them.
pub open spec fn restored_secret(text: Seq<char>) -> Option<Seq<u8>> {
    match bs58_value(text) {
        Some(b) => if b.len() == 32 {
            Some(b)
        } else {
            None
        },
        None => None,
    }
}

/// Restoring a keypair from the text that `secret_b58` exported gives back the same
/// secret key, hence the same public key and CID.
pub proof fn lemma_restore_from_export(k: CiviumKeypair, text: Seq<char>)
    requires
        k.public_view() == ed25519_public(k.secret_view()),
        bs58_value(text) == Some(k.secret_view()),
    ensures
        restored_secret(text) == Some(k.secret_view()),
        ed25519_public(restored_secret(text).unwrap()) == k.public_view(),
        cid_full_of(ed25519_public(restored_secret(text).unwrap())) == cid_full_of(k.public_view()),
{
}

} // verus!
