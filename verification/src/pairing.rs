//! Pairing a new device with an identity: the secret key travels in a one-time link,
//! encrypted under a key derived from a random pairing key carried in the same link.
use vstd::prelude::*;
use vstd::utf8::{decode_utf8, encode_utf8, valid_utf8};
use crate::cipher::{aead_decrypt, aead_encrypt, chacha_open, chacha_seal, sealable};
use crate::encoding::{b58_char, bs58_decode, bs58_encode, bs58_text, bs58_value};
use crate::entropy::{random_12, random_16, unix_now, uuid_v4};
use crate::hashing::{blake3_derive_key, blake3_kdf};
use crate::text::{append_str, chars_of, has_prefix, owned, string_of, strip_prefix};

verus! {

/// Context string of the pairing key derivation.
pub const PAIRING_CONTEXT: &'static str = "civium pairing session v0";

/// How long a pairing link stays valid, in seconds.
pub const PAIRING_EXPIRY_SECS: u64 = 600;

/// Shortest pairing payload: 16-byte key, 12-byte nonce, and a ciphertext of at least
/// one byte plus its 16-byte tag.
pub const MIN_PAIRING_PAYLOAD: usize = 45;

/// A device paired with an identity.
#[derive(Debug)]
pub struct PairedDevice {
    pub id: String,
    pub label: String,
    pub paired_at: u64,
    pub revoked: bool,
    pub revoked_at: Option<u64>,
}

/// A pairing link and the time it expires.
#[derive(Debug)]
pub struct PairingInit {
    pub link: String,
    pub expires_at: u64,
}

/// The text every pairing link starts with.
pub open spec fn pair_link_prefix() -> Seq<char> {
    seq!['c', 'i', 'v', 'i', 'u', 'm', ':', '/', '/', 'p', 'a', 'i', 'r', '/']
}

/// The text between the payload and the expiry time of a pairing link.
pub open spec fn expiry_marker() -> Seq<char> {
    seq!['?', 'e', 'x', 'p', '=']
}

/// The eight big-endian bytes of `x`.
pub open spec fn be_bytes(x: u64) -> Seq<u8> {
    seq![
        (x >> 56u64) as u8,
        (x >> 48u64) as u8,
        (x >> 40u64) as u8,
        (x >> 32u64) as u8,
        (x >> 24u64) as u8,
        (x >> 16u64) as u8,
        (x >> 8u64) as u8,
        x as u8,
    ]
}

/// The number whose big-endian bytes are the first eight of `b`.
pub open spec fn be_value(b: Seq<u8>) -> int {
    b[0] * 0x100000000000000 + b[1] * 0x1000000000000 + b[2] * 0x10000000000 + b[3] * 0x100000000
        + b[4] * 0x1000000 + b[5] * 0x10000 + b[6] * 0x100 + b[7]
}

/// Index of the first `c` in `s`, or -1.
pub open spec fn first_char_pos(s: Seq<char>, c: char) -> int
    decreases s.len(),
{
    if s.len() == 0 {
        -1
    } else if s[0] == c {
        0
    } else {
        let p = first_char_pos(s.drop_first(), c);
        if p == -1 {
            -1
        } else {
            p + 1
        }
    }
}

proof fn lemma_first_char_pos(s: Seq<char>, c: char)
    ensures
        -1 <= first_char_pos(s, c) < s.len(),
        first_char_pos(s, c) >= 0 ==> s[first_char_pos(s, c)] == c,
        forall|j: int| 0 <= j < s.len() && (first_char_pos(s, c) == -1 || j < first_char_pos(s, c)) ==> #[trigger] s[j] != c,
    decreases s.len(),
{
    if s.len() > 0 && s[0] != c {
        lemma_first_char_pos(s.drop_first(), c);
        assert forall|j: int| 0 <= j < s.len() && (first_char_pos(s, c) == -1 || j < first_char_pos(s, c)) implies #[trigger] s[j] != c by {
            if j > 0 {
                assert(s[j] == s.drop_first()[j - 1]);
            }
        }
    }
}

/// The parts of a pairing link after its prefix: the Base58 text of the payload, and the
/// expiry time when the link carries one (after `?exp=`, as the Base58 text of eight
/// big-endian bytes). A link without `?` has no expiry; a `?` not followed by a valid
/// expiry makes the link malformed.
pub open spec fn pairing_parts(link: Seq<char>) -> Option<(Seq<char>, Option<int>)> {
    if !has_prefix(link, pair_link_prefix()) {
        None
    } else {
        let body = link.skip(pair_link_prefix().len() as int);
        let p = first_char_pos(body, '?');
        if p == -1 {
            Some((body, None))
        } else {
            let tail = body.skip(p);
            if has_prefix(tail, expiry_marker()) && (bs58_value(tail.skip(5)) matches Some(b) && b.len() == 8) {
                Some((body.subrange(0, p), Some(be_value(bs58_value(tail.skip(5)).unwrap()))))
            } else {
                None
            }
        }
    }
}

/// The payload of a pairing link (pairing key, nonce, ciphertext), when its text decodes
/// to at least 45 bytes.
pub open spec fn pairing_payload(link: Seq<char>) -> Option<Seq<u8>> {
    match pairing_parts(link) {
        None => None,
        Some((text, _)) => match bs58_value(text) {
            None => None,
            Some(p) => if p.len() < MIN_PAIRING_PAYLOAD {
                None
            } else {
                Some(p)
            },
        },
    }
}

/// The time until which a pairing link is valid, when it carries one.
pub open spec fn pairing_expiry(link: Seq<char>) -> Option<int> {
    match pairing_parts(link) {
        None => None,
        Some((_, e)) => e,
    }
}

/// The secret carried by a pairing link: the payload must decode (see
/// `pairing_payload`), the ciphertext must open under the key derived from the pairing
/// key, and the plaintext must be UTF-8.
pub open spec fn pairing_secret(link: Seq<char>) -> Option<Seq<char>> {
    match pairing_payload(link) {
        None => None,
        Some(p) => match chacha_open(blake3_kdf(PAIRING_CONTEXT@, p.subrange(0, 16)), p.subrange(16, 28), p.skip(28)) {
            None => None,
            Some(pt) => if valid_utf8(pt) {
                Some(decode_utf8(pt))
            } else {
                None
            },
        },
    }
}

/// The link gives its secret at time `t`: it carries one, and has not expired when it
/// carries an expiry time.
pub open spec fn pairing_open_at(link: Seq<char>, t: u64) -> bool {
    &&& pairing_secret(link) is Some
    &&& pairing_expiry(link) matches Some(e) ==> t <= e
}

proof fn lemma_be_round_trip(x: u64)
    ensures
        be_value(be_bytes(x)) == x,
{
    let b = be_bytes(x);
    let (b0, b1, b2, b3, b4, b5, b6, b7) = (b[0], b[1], b[2], b[3], b[4], b[5], b[6], b[7]);
    assert(x == b0 * 0x100000000000000u64 + b1 * 0x1000000000000u64 + b2 * 0x10000000000u64 + b3 * 0x100000000u64
        + b4 * 0x1000000u64 + b5 * 0x10000u64 + b6 * 0x100u64 + b7) by (bit_vector)
        requires
            b0 == (x >> 56u64) as u8,
            b1 == (x >> 48u64) as u8,
            b2 == (x >> 40u64) as u8,
            b3 == (x >> 32u64) as u8,
            b4 == (x >> 24u64) as u8,
            b5 == (x >> 16u64) as u8,
            b6 == (x >> 8u64) as u8,
            b7 == x as u8,
    ;
}

/// Appends the bytes of `b` to `v`.
fn push_all(v: &mut Vec<u8>, b: &[u8])
    ensures
        final(v)@ == old(v)@ + b@,
{
    let mut i: usize = 0;
    while i < b.len()
        invariant
            i <= b.len(),
            v@ == old(v)@ + b@.subrange(0, i as int),
        decreases b.len() - i,
    {
        v.push(b[i]);
        i = i + 1;
        assert(v@ =~= old(v)@ + b@.subrange(0, i as int));
    }
    assert(b@.subrange(0, b@.len() as int) =~= b@);
}

/// Builds a pairing link for `secret_b58` with the given pairing key and nonce, valid
/// until `now` + 10 minutes. The link is the prefix, the Base58 text of the payload
/// (pairing key, nonce, ciphertext) and, after `?exp=`, the Base58 text of the expiry
/// time's eight big-endian bytes. Completing the link before it expires gives back the
/// secret, whenever it is not empty. Fails only when the secret is too long for the
/// cipher.
pub fn init_pairing_with(secret_b58: &str, pairing_key: &[u8; 16], nonce: &[u8; 12], now: u64) -> (r: Result<PairingInit, String>)
    requires
        now <= u64::MAX - PAIRING_EXPIRY_SECS,
    ensures
        r is Ok <==> sealable(encode_utf8(secret_b58@)),
        r matches Ok(p) ==> {
            &&& p.expires_at == now + PAIRING_EXPIRY_SECS
            &&& p.link@ == pair_link_prefix() + bs58_text(pairing_key@ + nonce@ + chacha_seal(
                blake3_kdf(PAIRING_CONTEXT@, pairing_key@),
                nonce@,
                encode_utf8(secret_b58@),
            )) + expiry_marker() + bs58_text(be_bytes(p.expires_at))
            &&& pairing_expiry(p.link@) == Some(p.expires_at as int)
            &&& secret_b58@.len() > 0 ==> pairing_secret(p.link@) == Some(secret_b58@)
        },
{
    let k = blake3_derive_key(PAIRING_CONTEXT, pairing_key);
    let ct = match aead_encrypt(&k, nonce, secret_b58.as_bytes()) {
        None => return Err(owned("chiffrement du jumelage échoué")),
        Some(c) => c,
    };
    let expires_at: u64 = now + PAIRING_EXPIRY_SECS;
    let exp: [u8; 8] = [
        #[verifier::truncate] ((expires_at >> 56u64) as u8),
        #[verifier::truncate] ((expires_at >> 48u64) as u8),
        #[verifier::truncate] ((expires_at >> 40u64) as u8),
        #[verifier::truncate] ((expires_at >> 32u64) as u8),
        #[verifier::truncate] ((expires_at >> 24u64) as u8),
        #[verifier::truncate] ((expires_at >> 16u64) as u8),
        #[verifier::truncate] ((expires_at >> 8u64) as u8),
        #[verifier::truncate] (expires_at as u8),
    ];
    assert(exp@ =~= be_bytes(expires_at));
    let mut payload: Vec<u8> = Vec::new();
    push_all(&mut payload, pairing_key);
    push_all(&mut payload, nonce);
    push_all(&mut payload, ct.as_slice());
    assert(payload@ =~= pairing_key@ + nonce@ + ct@);
    let mut link = String::new();
    proof {
        reveal_strlit("civium://pair/");
        reveal_strlit("?exp=");
    }
    append_str(&mut link, "civium://pair/");
    let enc = bs58_encode(payload.as_slice());
    append_str(&mut link, enc.as_str());
    append_str(&mut link, "?exp=");
    let enc_exp = bs58_encode(&exp);
    append_str(&mut link, enc_exp.as_str());
    proof {
        let p = payload@;
        let body = enc@ + expiry_marker() + enc_exp@;
        assert(link@ =~= pair_link_prefix() + body);
        assert(link@.subrange(0, pair_link_prefix().len() as int) =~= pair_link_prefix());
        assert(has_prefix(link@, pair_link_prefix()));
        assert(link@.skip(pair_link_prefix().len() as int) =~= body);
        lemma_first_char_pos(body, '?');
        assert(body[enc@.len() as int] == '?');
        assert forall|j: int| 0 <= j < enc@.len() implies body[j] != '?' by {
            assert(body[j] == enc@[j]);
            assert(b58_char(enc@[j]));
        }
        let q = first_char_pos(body, '?');
        if q != enc@.len() {
            assert(q == -1 || q < enc@.len());
            if q != -1 {
                assert(body[q] == enc@[q]);
            }
        }
        assert(q == enc@.len());
        let tail = body.skip(q);
        assert(tail =~= expiry_marker() + enc_exp@);
        assert(tail.subrange(0, 5) =~= expiry_marker());
        assert(tail.skip(5) =~= enc_exp@);
        assert(body.subrange(0, q) =~= enc@);
        lemma_be_round_trip(expires_at);
        assert(p.subrange(0, 16) =~= pairing_key@);
        assert(p.subrange(16, 28) =~= nonce@);
        assert(p.skip(28) =~= ct@);
        vstd::utf8::encode_utf8_decode_utf8(secret_b58@);
        vstd::utf8::encode_utf8_valid_utf8(secret_b58@);
        if secret_b58@.len() > 0 {
            assert(encode_utf8(secret_b58@).len() > 0) by {
                vstd::utf8::encode_utf8_first_scalar(secret_b58@);
            }
        }
    }
    Ok(PairingInit { link, expires_at })
}

/// Builds a pairing link for `secret_b58` now, with a fresh random pairing key and nonce
/// (see `init_pairing_with`); an error when the clock is too close to the largest time,
/// or when the secret is too long for the cipher.
pub fn init_pairing(secret_b58: &str) -> (r: Result<PairingInit, String>)
    ensures
        exists|t: u64| (r is Ok <==> #[trigger] clock_fits(t) && sealable(encode_utf8(secret_b58@))),
        r matches Ok(p) ==> p.expires_at >= PAIRING_EXPIRY_SECS && pairing_expiry(p.link@) == Some(p.expires_at as int),
        r matches Ok(p) ==> exists|key: Seq<u8>, nonce: Seq<u8>| {
            &&& key.len() == 16
            &&& nonce.len() == 12
            &&& p.link@ == pair_link_prefix() + bs58_text(key + nonce + #[trigger] chacha_seal(
                blake3_kdf(PAIRING_CONTEXT@, key),
                nonce,
                encode_utf8(secret_b58@),
            )) + expiry_marker() + bs58_text(be_bytes(p.expires_at))
        },
        r matches Ok(p) ==> (secret_b58@.len() > 0 ==> pairing_secret(p.link@) == Some(secret_b58@)),
        !sealable(encode_utf8(secret_b58@)) ==> r is Err,
        r matches Err(e) ==> (!sealable(encode_utf8(secret_b58@)) || e@ == "horloge hors limites"@),
{
    let now = unix_now();
    if now > u64::MAX - PAIRING_EXPIRY_SECS {
        assert(!clock_fits(now));
        return Err(owned("horloge hors limites"));
    }
    assert(clock_fits(now));
    let key = random_16();
    let nonce = random_12();
    init_pairing_with(secret_b58, &key, &nonce, now)
}

/// A link made at time `t` can carry its expiry time (`t` + 10 minutes fits in a `u64`).
pub open spec fn clock_fits(t: u64) -> bool {
    t <= u64::MAX - PAIRING_EXPIRY_SECS
}

/// Recovers the secret from a pairing link at time `now`; an error when the prefix is
/// missing, the expiry part is malformed, the link has expired (`now` past its expiry
/// time), the payload is not Base58 or shorter than 45 bytes, decryption fails or the
/// secret is not UTF-8. A link without an expiry part is accepted at any time.
pub fn complete_pairing_at(link: &str, now: u64) -> (r: Result<String, String>)
    ensures
        r is Ok <==> pairing_open_at(link@, now),
        r matches Ok(s) ==> pairing_secret(link@) == Some(s@),
{
    proof {
        reveal_strlit("civium://pair/");
        assert("civium://pair/"@ =~= pair_link_prefix());
        reveal_strlit("?exp=");
        assert("?exp="@ =~= expiry_marker());
    }
    let rest = match strip_prefix(link, "civium://pair/") {
        None => return Err(owned("lien invalide — doit commencer par civium://pair/")),
        Some(r) => r,
    };
    let ghost body = link@.skip(pair_link_prefix().len() as int);
    assert(rest@ =~= body);
    let cs = chars_of(rest.as_str());
    let mut q: usize = 0;
    while q < cs.len() && cs[q] != '?'
        invariant
            q <= cs.len(),
            cs@ == body,
            forall|j: int| 0 <= j < q ==> #[trigger] body[j] != '?',
        decreases cs.len() - q,
    {
        q = q + 1;
    }
    proof {
        lemma_first_char_pos(body, '?');
        let f = first_char_pos(body, '?');
        if f != -1 && f < q {
            assert(body[f] != '?');
        }
        if q < cs.len() && f != -1 && f > q {
            assert(body[q as int] != '?');
        }
    }
    let payload_text = if q == cs.len() {
        assert(first_char_pos(body, '?') == -1);
        rest
    } else {
        assert(first_char_pos(body, '?') == q);
        let text = string_of(&cs, 0, q);
        let tail = string_of(&cs, q, cs.len());
        assert(tail@ =~= body.skip(q as int));
        let exp_text = match strip_prefix(tail.as_str(), "?exp=") {
            None => return Err(owned("lien invalide — expiration illisible")),
            Some(t) => t,
        };
        assert(exp_text@ =~= tail@.skip(5));
        let eb = match bs58_decode(exp_text.as_str()) {
            None => return Err(owned("lien invalide — expiration illisible")),
            Some(b) => b,
        };
        if eb.len() != 8 {
            return Err(owned("lien invalide — expiration illisible"));
        }
        let (b0, b1, b2, b3) = (eb[0], eb[1], eb[2], eb[3]);
        let (b4, b5, b6, b7) = (eb[4], eb[5], eb[6], eb[7]);
        let expires_at: u64 = (b0 as u64) << 56u64 | (b1 as u64) << 48u64 | (b2 as u64) << 40u64 | (b3 as u64) << 32u64
            | (b4 as u64) << 24u64 | (b5 as u64) << 16u64 | (b6 as u64) << 8u64 | (b7 as u64);
        assert(expires_at == b0 * 0x100000000000000u64 + b1 * 0x1000000000000u64 + b2 * 0x10000000000u64 + b3 * 0x100000000u64
            + b4 * 0x1000000u64 + b5 * 0x10000u64 + b6 * 0x100u64 + b7) by (bit_vector)
            requires
                expires_at == (b0 as u64) << 56u64 | (b1 as u64) << 48u64 | (b2 as u64) << 40u64 | (b3 as u64) << 32u64
                    | (b4 as u64) << 24u64 | (b5 as u64) << 16u64 | (b6 as u64) << 8u64 | (b7 as u64),
        ;
        assert(pairing_expiry(link@) == Some(expires_at as int));
        if now > expires_at {
            return Err(owned("lien de jumelage expiré"));
        }
        text
    };
    let payload = match bs58_decode(payload_text.as_str()) {
        None => return Err(owned("décodage base58 échoué")),
        Some(p) => p,
    };
    if payload.len() < MIN_PAIRING_PAYLOAD {
        return Err(owned("payload de jumelage trop court"));
    }
    let key_part = vstd::slice::slice_subrange(payload.as_slice(), 0, 16);
    let nonce_part = vstd::slice::slice_subrange(payload.as_slice(), 16, 28);
    let ct_part = vstd::slice::slice_subrange(payload.as_slice(), 28, payload.len());
    assert(ct_part@ =~= payload@.skip(28));
    let k = blake3_derive_key(PAIRING_CONTEXT, key_part);
    let pt = match aead_decrypt(&k, nonce_part, ct_part) {
        None => return Err(owned("déchiffrement échoué — lien invalide ou expiré")),
        Some(p) => p,
    };
    match crate::text::utf8_string(pt) {
        None => Err(owned("secret déchiffré invalide")),
        Some(s) => Ok(s),
    }
}

/// Recovers the secret from a pairing link now (see `complete_pairing_at`).
pub fn complete_pairing(link: &str) -> (r: Result<String, String>)
    ensures
        r matches Ok(s) ==> pairing_secret(link@) == Some(s@),
        pairing_secret(link@) is None ==> r is Err,
        pairing_expiry(link@) is None ==> (r is Ok <==> pairing_secret(link@) is Some),
        exists|t: u64| (r is Ok <==> #[trigger] pairing_open_at(link@, t)),
{
    let now = unix_now();
    complete_pairing_at(link, now)
}

impl PairedDevice {
    /// A device paired at `now` with identifier `id`, not revoked.
    pub fn new_at(id: String, label: String, now: u64) -> (d: PairedDevice)
        ensures
            d == (PairedDevice { id, label, paired_at: now, revoked: false, revoked_at: None }),
    {
        PairedDevice { id, label, paired_at: now, revoked: false, revoked_at: None }
    }

    /// A device paired now under a random UUID, not revoked.
    pub fn new(label: String) -> (d: PairedDevice)
        ensures
            d.label == label,
            !d.revoked,
            d.revoked_at is None,
    {
        let now = unix_now();
        Self::new_at(uuid_v4(), label, now)
    }

    /// Revokes the device at `now`.
    pub fn revoke_at(&mut self, now: u64)
        ensures
            *final(self) == (PairedDevice { revoked: true, revoked_at: Some(now), ..*old(self) }),
    {
        self.revoked = true;
        self.revoked_at = Some(now);
    }

    /// Revokes the device now.
    pub fn revoke(&mut self)
        ensures
            final(self).revoked,
            final(self).revoked_at is Some,
            final(self).id == old(self).id,
            final(self).label == old(self).label,
            final(self).paired_at == old(self).paired_at,
    {
        let now = unix_now();
        self.revoke_at(now);
    }
}

} // verus!
