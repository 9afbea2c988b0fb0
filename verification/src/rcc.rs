//! The registration and fraud-alert channel of the Civium root (RCC): the canonical texts
//! that are signed, and the check of a signed alert.
use vstd::prelude::*;
use vstd::utf8::encode_utf8;
use crate::connection::signature_ok;
use crate::encoding::bs58_decode;
use crate::error::CiviumError;
use crate::signing::ed25519_verify;
use crate::text::{append_str, decimal, decimal_string, owned, push_char};

verus! {

/// Address of the root registration service.
pub const RCC_URL: &'static str = "https://www.rouaix.com/civium";

/// Base58 public key of the root (empty until it is configured).
pub const RCC_PUBLIC_KEY_B58: &'static str = "";

/// A fraud alert broadcast by the root about some networks.
#[derive(Debug)]
pub struct FraudAlert {
    pub alert_type: String,
    pub description: String,
    pub network_cids: Vec<String>,
    pub emitted_at: u64,
    pub emitted_by: String,
}

/// The strings of `s` joined with `sep` between them.
pub open spec fn join(s: Seq<String>, sep: char) -> Seq<char>
    decreases s.len(),
{
    if s.len() == 0 {
        Seq::empty()
    } else if s.len() == 1 {
        s[0]@
    } else {
        join(s.drop_last(), sep) + seq![sep] + s.last()@
    }
}

/// Joins strings with a separator.
pub fn join_with(s: &Vec<String>, sep: char) -> (r: String)
    ensures
        r@ == join(s@, sep),
{
    let mut r = String::new();
    let mut i: usize = 0;
    while i < s.len()
        invariant
            i <= s.len(),
            r@ == join(s@.subrange(0, i as int), sep),
        decreases s.len() - i,
    {
        proof {
            let sub = s@.subrange(0, i + 1);
            assert(sub.drop_last() =~= s@.subrange(0, i as int));
            assert(sub.last() == s@[i as int]);
        }
        if i > 0 {
            push_char(&mut r, sep);
        }
        append_str(&mut r, s[i].as_str());
        i = i + 1;
    }
    assert(s@.subrange(0, s@.len() as int) =~= s@);
    r
}

/// The signed text of an alert: `type|description|cid,cid,…|emitted_at`.
pub open spec fn alert_text(a: FraudAlert) -> Seq<char> {
    a.alert_type@ + seq!['|'] + a.description@ + seq!['|'] + join(a.network_cids@, ',') + seq!['|'] + decimal(a.emitted_at as nat)
}

impl FraudAlert {
    /// The UTF-8 bytes of the signed text of the alert.
    pub fn canonical_bytes(&self) -> (b: Vec<u8>)
        ensures
            b@ == encode_utf8(alert_text(*self)),
    {
        let mut s = self.alert_type.clone();
        push_char(&mut s, '|');
        append_str(&mut s, self.description.as_str());
        push_char(&mut s, '|');
        let j = join_with(&self.network_cids, ',');
        append_str(&mut s, j.as_str());
        push_char(&mut s, '|');
        let t = decimal_string(self.emitted_at);
        append_str(&mut s, t.as_str());
        assert(s@ =~= alert_text(*self));
        s.as_str().as_bytes_vec()
    }
}

/// Checks a root alert (already parsed from its JSON) against its Base58 signature: a
/// `Crypto` error when the root key is not configured or invalid, or the signature does
/// not verify over the alert's signed text.
pub fn verify_rcc_alert(alert: FraudAlert, signature_b58: &str) -> (r: Result<FraudAlert, CiviumError>)
    ensures
        r is Ok <==> (RCC_PUBLIC_KEY_B58@.len() > 0 && signature_ok(RCC_PUBLIC_KEY_B58@, encode_utf8(alert_text(alert)), signature_b58@)),
        r matches Ok(a) ==> a == alert,
        r matches Err(e) ==> e is Crypto,
        RCC_PUBLIC_KEY_B58@.len() == 0 ==> (r matches Err(CiviumError::Crypto(m)) && m@ == "RCC public key not configured"@),
{
    if RCC_PUBLIC_KEY_B58.is_empty() {
        return Err(CiviumError::Crypto(owned("RCC public key not configured")));
    }
    let pk = match bs58_decode(RCC_PUBLIC_KEY_B58) {
        None => return Err(CiviumError::Crypto(owned("invalid base58 RCC public key"))),
        Some(b) => b,
    };
    if pk.len() != 32 {
        return Err(CiviumError::Crypto(owned("invalid RCC public key length")));
    }
    let sig = match bs58_decode(signature_b58) {
        None => return Err(CiviumError::Crypto(owned("invalid base58 signature"))),
        Some(b) => b,
    };
    let msg = alert.canonical_bytes();
    match ed25519_verify(pk.as_slice(), msg.as_slice(), sig.as_slice()) {
        None => Err(CiviumError::Crypto(owned("invalid RCC public key"))),
        Some(false) => Err(CiviumError::Crypto(owned("invalid RCC alert signature"))),
        Some(true) => Ok(alert),
    }
}

/// What a network sends to the root when it registers.
#[derive(Debug)]
pub struct RccPayload {
    pub network_cid: String,
    pub network_name: String,
    pub admin_cid: String,
    pub admin_pubkey: String,
    pub admin_email: String,
    pub registered_at: u64,
}

/// The signed text of a registration: its six fields separated by `|`.
pub open spec fn registration_text(p: RccPayload) -> Seq<char> {
    p.network_cid@ + seq!['|'] + p.network_name@ + seq!['|'] + p.admin_cid@ + seq!['|'] + p.admin_pubkey@
        + seq!['|'] + p.admin_email@ + seq!['|'] + decimal(p.registered_at as nat)
}

impl RccPayload {
    /// A registration payload.
    pub fn new(
        network_cid: String,
        network_name: String,
        admin_cid: String,
        admin_pubkey: String,
        admin_email: String,
        registered_at: u64,
    ) -> (p: RccPayload)
        ensures
            p == (RccPayload { network_cid, network_name, admin_cid, admin_pubkey, admin_email, registered_at }),
    {
        RccPayload { network_cid, network_name, admin_cid, admin_pubkey, admin_email, registered_at }
    }

    /// The UTF-8 bytes of the signed text of the registration.
    pub fn canonical_bytes(&self) -> (b: Vec<u8>)
        ensures
            b@ == encode_utf8(registration_text(*self)),
    {
        let mut s = self.network_cid.clone();
        push_char(&mut s, '|');
        append_str(&mut s, self.network_name.as_str());
        push_char(&mut s, '|');
        append_str(&mut s, self.admin_cid.as_str());
        push_char(&mut s, '|');
        append_str(&mut s, self.admin_pubkey.as_str());
        push_char(&mut s, '|');
        append_str(&mut s, self.admin_email.as_str());
        push_char(&mut s, '|');
        let t = decimal_string(self.registered_at);
        append_str(&mut s, t.as_str());
        assert(s@ =~= registration_text(*self));
        s.as_str().as_bytes_vec()
    }
}

} // verus!
