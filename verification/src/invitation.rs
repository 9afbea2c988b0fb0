//! Signed invitations to join a network, shared as `civium-invite:<base58(json)>` links.
use vstd::prelude::*;
use vstd::utf8::encode_utf8;
use crate::encoding::{bs58_decode, bs58_encode, bs58_text, bs58_value};
use crate::entropy::{random_16, unix_now};
use crate::error::CiviumError;
use crate::identity::{Cid, CiviumKeypair, cid_full_of};
use crate::json::{json_member, json_num_member, json_str_member, push_num_member, push_str_member};
use crate::signing::{ed25519_accepts, ed25519_key_valid, ed25519_verify};
use crate::text::{append_str, owned, push_char, strip_prefix};

verus! {

/// Version number written in every invitation.
pub const INVITE_VERSION: u8 = 1;

/// Seconds in an hour.
pub const SECS_PER_HOUR: u64 = 3600;

/// Payload that is signed by the network's keypair.
#[derive(Debug)]
pub struct InvitePayload {
    pub v: u8,
    pub network_cid_full: String,
    /// Base58 of the 32-byte Ed25519 public key, so that the recipient can check the
    /// signature without a running node.
    pub network_pubkey_b58: String,
    pub network_name: String,
    pub inviter_cid_short: String,
    pub created_at: u64,
    /// Unix timestamp; 0 = no expiry.
    pub expires_at: u64,
    pub nonce_b58: String,
}

/// A signed invitation to join a Civium network.
#[derive(Debug)]
pub struct Invitation {
    pub payload: InvitePayload,
    pub sig_b58: String,
}

/// The JSON text of a payload, fields in declaration order (the bytes that are signed).
pub open spec fn invite_payload_json(p: InvitePayload) -> Seq<char> {
    seq!['{'] + json_num_member("v"@, p.v as nat) + seq![','] + json_str_member(
        "network_cid_full"@,
        p.network_cid_full@,
    ) + seq![','] + json_str_member("network_pubkey_b58"@, p.network_pubkey_b58@) + seq![',']
        + json_str_member("network_name"@, p.network_name@) + seq![','] + json_str_member(
        "inviter_cid_short"@,
        p.inviter_cid_short@,
    ) + seq![','] + json_num_member("created_at"@, p.created_at as nat) + seq![',']
        + json_num_member("expires_at"@, p.expires_at as nat) + seq![','] + json_str_member(
        "nonce_b58"@,
        p.nonce_b58@,
    ) + seq!['}']
}

/// The JSON text of a whole invitation: `{"payload":…,"sig_b58":…}`.
pub open spec fn invitation_json(inv: Invitation) -> Seq<char> {
    seq!['{'] + json_member("payload"@, invite_payload_json(inv.payload)) + seq![',']
        + json_str_member("sig_b58"@, inv.sig_b58@) + seq!['}']
}

/// The text every invitation link starts with.
pub open spec fn invite_link_prefix() -> Seq<char> {
    seq!['c', 'i', 'v', 'i', 'u', 'm', '-', 'i', 'n', 'v', 'i', 't', 'e', ':']
}

/// The expiry time of an invitation created at `now` for `hours` hours (0: none).
pub open spec fn expiry_of(now: u64, hours: u64) -> int {
    if hours == 0 {
        0
    } else {
        now + hours * 3600
    }
}

/// An invitation is valid at time `now`: not expired, its public key decodes to 32
/// bytes that parse as an Ed25519 key, and its signature decodes and verifies over the
/// payload's JSON bytes.
pub open spec fn invitation_valid_at(inv: Invitation, now: u64) -> bool {
    &&& (inv.payload.expires_at == 0 || now <= inv.payload.expires_at)
    &&& bs58_value(inv.payload.network_pubkey_b58@) matches Some(pk)
    &&& pk.len() == 32
    &&& ed25519_key_valid(pk)
    &&& bs58_value(inv.sig_b58@) matches Some(sig)
    &&& ed25519_accepts(pk, encode_utf8(invite_payload_json(inv.payload)), sig)
}

/// An invitation created at `t` for `hours` hours has an expiry time that fits in a
/// `u64` (always so without expiry).
pub open spec fn expiry_fits(t: u64, hours: u64) -> bool {
    hours == 0 || t + hours * 3600 <= u64::MAX
}

/// `inv` is an invitation that the network with public key `network_public` and name
/// `network_name` issued for the inviter with short CID `inviter_short`, for `hours`
/// hours (0: no expiry), under some 16-byte nonce: it is valid until it expires.
pub open spec fn issued_invitation(
    inv: Invitation,
    network_public: Seq<u8>,
    network_name: Seq<char>,
    inviter_short: Seq<char>,
    hours: u64,
) -> bool {
    &&& inv.payload.v == INVITE_VERSION
    &&& inv.payload.network_cid_full@ == cid_full_of(network_public)
    &&& inv.payload.network_pubkey_b58@ == bs58_text(network_public)
    &&& inv.payload.network_name@ == network_name
    &&& inv.payload.inviter_cid_short@ == inviter_short
    &&& inv.payload.expires_at == expiry_of(inv.payload.created_at, hours)
    &&& exists|n: Seq<u8>| n.len() == 16 && inv.payload.nonce_b58@ == #[trigger] bs58_text(n)
    &&& forall|t: u64| (hours == 0 || t <= inv.payload.expires_at) ==> #[trigger] invitation_valid_at(inv, t)
}

/// The link text of an invitation.
pub open spec fn invitation_link(inv: Invitation) -> Seq<char> {
    invite_link_prefix() + bs58_text(encode_utf8(invitation_json(inv)))
}

impl InvitePayload {
    /// The JSON text of the payload.
    pub fn to_json(&self) -> (s: String)
        ensures
            s@ == invite_payload_json(*self),
    {
        let mut s = String::new();
        push_char(&mut s, '{');
        push_num_member(&mut s, "v", self.v as u64);
        push_char(&mut s, ',');
        push_str_member(&mut s, "network_cid_full", self.network_cid_full.as_str());
        push_char(&mut s, ',');
        push_str_member(&mut s, "network_pubkey_b58", self.network_pubkey_b58.as_str());
        push_char(&mut s, ',');
        push_str_member(&mut s, "network_name", self.network_name.as_str());
        push_char(&mut s, ',');
        push_str_member(&mut s, "inviter_cid_short", self.inviter_cid_short.as_str());
        push_char(&mut s, ',');
        push_num_member(&mut s, "created_at", self.created_at);
        push_char(&mut s, ',');
        push_num_member(&mut s, "expires_at", self.expires_at);
        push_char(&mut s, ',');
        push_str_member(&mut s, "nonce_b58", self.nonce_b58.as_str());
        push_char(&mut s, '}');
        assert(s@ =~= invite_payload_json(*self));
        s
    }
}

impl Invitation {
    /// Creates and signs an invitation at time `now` with the given 16-byte nonce. The
    /// invitation expires `expires_hours` hours after `now`; 0 means no expiry.
    pub fn create_at(
        network_keypair: &CiviumKeypair,
        network_name: &str,
        inviter_cid: &Cid,
        expires_hours: u64,
        now: u64,
        nonce: &[u8; 16],
    ) -> (r: Result<Invitation, CiviumError>)
        requires
            expires_hours == 0 || now + expires_hours * 3600 <= u64::MAX,
        ensures
            r matches Ok(inv) && {
                &&& inv.payload.v == INVITE_VERSION
                &&& inv.payload.network_cid_full@ == cid_full_of(network_keypair.public_view())
                &&& inv.payload.network_pubkey_b58@ == bs58_text(network_keypair.public_view())
                &&& inv.payload.network_name@ == network_name@
                &&& inv.payload.inviter_cid_short@ == inviter_cid.short_view()
                &&& inv.payload.created_at == now
                &&& inv.payload.expires_at == expiry_of(now, expires_hours)
                &&& inv.payload.nonce_b58@ == bs58_text(nonce@)
                &&& forall|t: u64|
                    (expires_hours == 0 || t <= inv.payload.expires_at) ==> #[trigger] invitation_valid_at(inv, t)
            },
    {
        let expires_at: u64 = if expires_hours == 0 {
            0
        } else {
            now + expires_hours * SECS_PER_HOUR
        };
        let cid = network_keypair.cid();
        let pk = network_keypair.public_key_bytes();
        let payload = InvitePayload {
            v: INVITE_VERSION,
            network_cid_full: owned(cid.full()),
            network_pubkey_b58: bs58_encode(pk),
            network_name: owned(network_name),
            inviter_cid_short: owned(inviter_cid.short()),
            created_at: now,
            expires_at,
            nonce_b58: bs58_encode(nonce),
        };
        let json = payload.to_json();
        let sig = network_keypair.sign(json.as_str().as_bytes());
        let inv = Invitation { payload, sig_b58: bs58_encode(sig.as_slice()) };
        assert forall|t: u64| (expires_hours == 0 || t <= inv.payload.expires_at) implies #[trigger] invitation_valid_at(inv, t) by {
            assert(bs58_value(inv.payload.network_pubkey_b58@) == Some(pk@));
        }
        Ok(inv)
    }

    /// Creates and signs an invitation now, with a fresh random nonce. The invitation
    /// expires `expires_hours` hours from now; 0 means no expiry. An expiry past the
    /// largest timestamp is refused.
    pub fn create(
        network_keypair: &CiviumKeypair,
        network_name: &str,
        inviter_cid: &Cid,
        expires_hours: u64,
    ) -> (r: Result<Invitation, CiviumError>)
        ensures
            r matches Ok(inv) ==> issued_invitation(
                inv,
                network_keypair.public_view(),
                network_name@,
                inviter_cid.short_view(),
                expires_hours,
            ),
            r matches Err(e) ==> e is Invitation,
            expires_hours == 0 ==> r is Ok,
            expires_hours > u64::MAX / 3600 ==> r is Err,
            exists|t: u64| (r is Ok <==> #[trigger] expiry_fits(t, expires_hours)),
            r matches Ok(inv) ==> expiry_fits(inv.payload.created_at, expires_hours),
    {
        let now = unix_now();
        if expires_hours != 0 && (expires_hours > u64::MAX / SECS_PER_HOUR || now > u64::MAX
            - expires_hours * SECS_PER_HOUR) {
            assert(!expiry_fits(now, expires_hours)) by (nonlinear_arith)
                requires
                    expires_hours != 0,
                    expires_hours > u64::MAX / 3600 || now > u64::MAX - expires_hours * 3600,
            ;
            return Err(CiviumError::Invitation(owned("invitation expiry is out of range")));
        }
        assert(expiry_fits(now, expires_hours));
        let nonce = random_16();
        Self::create_at(network_keypair, network_name, inviter_cid, expires_hours, now, &nonce)
    }

    /// The JSON text of the invitation.
    pub fn to_json(&self) -> (s: String)
        ensures
            s@ == invitation_json(*self),
    {
        let mut s = String::new();
        push_char(&mut s, '{');
        crate::json::push_json_string(&mut s, "payload");
        push_char(&mut s, ':');
        let p = self.payload.to_json();
        append_str(&mut s, p.as_str());
        push_char(&mut s, ',');
        push_str_member(&mut s, "sig_b58", self.sig_b58.as_str());
        push_char(&mut s, '}');
        assert(s@ =~= invitation_json(*self));
        s
    }

    /// Encodes the invitation as a `civium-invite:…` link: the prefix followed by the
    /// Base58 text of the invitation's JSON bytes.
    pub fn to_link(&self) -> (r: Result<String, CiviumError>)
        ensures
            r matches Ok(link) && link@ == invite_link_prefix() + bs58_text(encode_utf8(invitation_json(*self))),
            r matches Ok(link) ==> bs58_value(link@.skip(invite_link_prefix().len() as int)) == Some(encode_utf8(invitation_json(*self))),
    {
        let json = self.to_json();
        let mut link = String::new();
        proof {
            reveal_strlit("civium-invite:");
        }
        append_str(&mut link, "civium-invite:");
        let b = bs58_encode(json.as_str().as_bytes());
        append_str(&mut link, b.as_str());
        assert(link@ =~= invite_link_prefix() + bs58_text(encode_utf8(invitation_json(*self))));
        assert(link@.skip(invite_link_prefix().len() as int) =~= b@);
        Ok(link)
    }

    /// The JSON bytes carried by a `civium-invite:…` link; an `Invitation` error when
    /// the prefix is missing or the rest is not Base58.
    pub fn link_json_bytes(link: &str) -> (r: Result<Vec<u8>, CiviumError>)
        ensures
            r is Ok <==> (crate::text::has_prefix(link@, invite_link_prefix()) && bs58_value(
                link@.skip(invite_link_prefix().len() as int),
            ) is Some),
            r matches Ok(b) ==> Some(b@) == bs58_value(link@.skip(invite_link_prefix().len() as int)),
            r matches Err(e) ==> e is Invitation,
    {
        proof {
            reveal_strlit("civium-invite:");
            assert("civium-invite:"@ =~= invite_link_prefix());
        }
        match strip_prefix(link, "civium-invite:") {
            None => Err(CiviumError::Invitation(owned("invalid invite link"))),
            Some(rest) => {
                assert(rest@ =~= link@.skip(invite_link_prefix().len() as int));
                match bs58_decode(rest.as_str()) {
                    None => Err(CiviumError::Invitation(owned("invalid base58 in invite link"))),
                    Some(b) => Ok(b),
                }
            },
        }
    }

    /// Checks expiry (at time `now`) and the network's signature.
    pub fn verify_at(&self, now: u64) -> (r: Result<(), CiviumError>)
        ensures
            r is Ok <==> invitation_valid_at(*self, now),
            r matches Err(e) ==> e is Invitation,
    {
        if self.payload.expires_at != 0 && now > self.payload.expires_at {
            return Err(CiviumError::Invitation(owned("invitation has expired")));
        }
        let pk = match bs58_decode(self.payload.network_pubkey_b58.as_str()) {
            None => return Err(CiviumError::Invitation(owned("invalid base58 public key in invite"))),
            Some(b) => b,
        };
        if pk.len() != 32 {
            return Err(CiviumError::Invitation(owned("invalid public key length in invite")));
        }
        let json = self.payload.to_json();
        let sig = match bs58_decode(self.sig_b58.as_str()) {
            None => return Err(CiviumError::Invitation(owned("invalid base58 signature in invite"))),
            Some(b) => b,
        };
        match ed25519_verify(pk.as_slice(), json.as_str().as_bytes(), sig.as_slice()) {
            None => Err(CiviumError::Invitation(owned("invalid public key in invite"))),
            Some(false) => Err(CiviumError::Invitation(owned("invalid signature"))),
            Some(true) => Ok(()),
        }
    }

    /// Checks expiry against the current time, and the network's signature.
    pub fn verify(&self) -> (r: Result<(), CiviumError>)
        ensures
            r matches Err(e) ==> e is Invitation,
            r is Ok ==> exists|t: u64| #[trigger] invitation_valid_at(*self, t),
            exists|t: u64| (r is Ok <==> #[trigger] invitation_valid_at(*self, t)),
            self.payload.expires_at == 0 ==> (r is Ok <==> invitation_valid_at(*self, 0)),
    {
        let now = unix_now();
        self.verify_at(now)
    }

    /// The full CID of the network that issued the invitation.
    pub fn network_cid_full(&self) -> (s: &str)
        ensures
            s@ == self.payload.network_cid_full@,
    {
        self.payload.network_cid_full.as_str()
    }

    /// The name of the network that issued the invitation.
    pub fn network_name(&self) -> (s: &str)
        ensures
            s@ == self.payload.network_name@,
    {
        self.payload.network_name.as_str()
    }

    /// The invitation's nonce (Base58).
    pub fn nonce_b58(&self) -> (s: &str)
        ensures
            s@ == self.payload.nonce_b58@,
    {
        self.payload.nonce_b58.as_str()
    }
}

} // verus!
