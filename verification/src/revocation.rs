//! Revocation of an identity: a record signed by the identity's own key.
use vstd::prelude::*;
use vstd::utf8::encode_utf8;
use crate::encoding::{bs58_decode, bs58_value};
use crate::identity::{Cid, array32, cid_full_of};
use crate::signing::{ed25519_accepts, ed25519_key_valid, ed25519_verify};
use crate::text::{append_str, decimal, decimal_string, push_char, str_eq};

verus! {

/// A signed statement that an identity is revoked.
#[derive(Debug)]
pub struct RevocationRecord {
    pub cid_full: String,
    pub pub_key_b58: String,
    pub reason: String,
    pub revoked_at: u64,
    pub signature_b58: String,
}

/// The signed text: `civium-revoke:<cid_full>:<revoked_at>`.
pub open spec fn revocation_text(cid_full: Seq<char>, revoked_at: u64) -> Seq<char> {
    "civium-revoke:"@ + cid_full + seq![':'] + decimal(revoked_at as nat)
}

/// A revocation is genuine: its key decodes to 32 bytes whose CID is the revoked one,
/// and its signature, by that key, verifies over the signed text.
pub open spec fn revocation_valid(r: RevocationRecord) -> bool {
    &&& bs58_value(r.pub_key_b58@) matches Some(pk)
    &&& pk.len() == 32
    &&& cid_full_of(pk) == r.cid_full@
    &&& bs58_value(r.signature_b58@) matches Some(sig)
    &&& ed25519_key_valid(pk)
    &&& ed25519_accepts(pk, encode_utf8(revocation_text(r.cid_full@, r.revoked_at)), sig)
}

impl RevocationRecord {
    /// The UTF-8 bytes of the signed text.
    pub fn signing_payload(cid_full: &str, revoked_at: u64) -> (b: Vec<u8>)
        ensures
            b@ == encode_utf8(revocation_text(cid_full@, revoked_at)),
    {
        let mut s = String::new();
        append_str(&mut s, "civium-revoke:");
        append_str(&mut s, cid_full);
        push_char(&mut s, ':');
        let t = decimal_string(revoked_at);
        append_str(&mut s, t.as_str());
        assert(s@ =~= revocation_text(cid_full@, revoked_at));
        s.as_str().as_bytes_vec()
    }

    /// Whether the revocation is genuine.
    pub fn verify(&self) -> (b: bool)
        ensures
            b == revocation_valid(*self),
    {
        let pk = match bs58_decode(self.pub_key_b58.as_str()) {
            None => return false,
            Some(v) => v,
        };
        if pk.len() != 32 {
            return false;
        }
        let arr = array32(&pk);
        let expected = Cid::from_public_key_bytes(&arr);
        if !str_eq(expected.full(), self.cid_full.as_str()) {
            return false;
        }
        let payload = Self::signing_payload(self.cid_full.as_str(), self.revoked_at);
        let sig = match bs58_decode(self.signature_b58.as_str()) {
            None => return false,
            Some(v) => v,
        };
        match ed25519_verify(arr.as_slice(), payload.as_slice(), sig.as_slice()) {
            None => false,
            Some(ok) => ok,
        }
    }
}

} // verus!
