//! Connections between networks: signed requests, the two-signature agreement (APC,
//! "Accord de Partage Civium") that makes a connection live, and the lifecycle of the
//! connection records that each network keeps.
use vstd::prelude::*;
use vstd::utf8::encode_utf8;
use crate::encoding::{bs58_decode, bs58_encode, bs58_text, bs58_value};
use crate::entropy::{random_16, unix_now};
use crate::error::CiviumError;
use crate::identity::{CiviumKeypair, cid_full_of};
use crate::json::{json_bool, json_member, json_num_member, json_str_member, push_bool_member, push_json_string, push_num_member, push_str_member};
use crate::signing::{ed25519_accepts, ed25519_key_valid, ed25519_verify};
use crate::text::{append_str, has_prefix, owned, push_char, starts_with, str_eq};
use crate::member::copy_opt_string;

verus! {

/// Lifecycle state of a connection between two networks.
#[derive(Debug, PartialEq, Eq)]
pub enum ConnectionState {
    /// We sent a request; the peer's admin reviews it.
    Requested,
    /// The peer sent a request; our admin reviews it.
    Validating,
    /// The agreement is signed by both sides; the connection is live.
    Active,
    /// The request was refused, with an optional reason.
    Refused { reason: Option<String> },
    /// We blocked this network.
    Blocked,
    /// Was active; one side revoked it.
    Revoked,
}

impl ConnectionState {
    /// The state's name: `Requested`, `Validating`, `Active`, `Refused`, `Blocked` or `Revoked`.
    pub fn to_string(&self) -> (s: String)
        ensures
            *self is Requested ==> s@ == "Requested"@,
            *self is Validating ==> s@ == "Validating"@,
            *self is Active ==> s@ == "Active"@,
            *self is Refused ==> s@ == "Refused"@,
            *self is Blocked ==> s@ == "Blocked"@,
            *self is Revoked ==> s@ == "Revoked"@,
    {
        match self {
            ConnectionState::Requested => owned("Requested"),
            ConnectionState::Validating => owned("Validating"),
            ConnectionState::Active => owned("Active"),
            ConnectionState::Refused { .. } => owned("Refused"),
            ConnectionState::Blocked => owned("Blocked"),
            ConnectionState::Revoked => owned("Revoked"),
        }
    }

    /// An exact copy.
    pub fn copy(&self) -> (r: ConnectionState)
        ensures
            r == *self,
    {
        match self {
            ConnectionState::Requested => ConnectionState::Requested,
            ConnectionState::Validating => ConnectionState::Validating,
            ConnectionState::Active => ConnectionState::Active,
            ConnectionState::Refused { reason } => ConnectionState::Refused { reason: copy_opt_string(reason) },
            ConnectionState::Blocked => ConnectionState::Blocked,
            ConnectionState::Revoked => ConnectionState::Revoked,
        }
    }
}

/// What a network agrees to expose to its connection peer.
#[derive(Debug, Clone, Copy, PartialEq, Eq, Structural)]
pub struct ShareTerms {
    /// Whether the member directory is exposed to the connected network.
    pub expose_member_directory: bool,
    /// Registered in the root directory but hidden from public listings.
    pub privacy: bool,
}

impl ShareTerms {
    /// The default terms: the directory is exposed, no privacy.
    pub fn default_terms() -> (t: ShareTerms)
        ensures
            t.expose_member_directory,
            !t.privacy,
    {
        ShareTerms { expose_member_directory: true, privacy: false }
    }
}

/// A connection request payload, signed by the requesting network.
#[derive(Debug)]
pub struct RequestPayload {
    pub v: u8,
    /// Unique per request; links the acceptance to the request.
    pub nonce_b58: String,
    pub from_cid_full: String,
    pub from_pubkey_b58: String,
    pub from_name: String,
    pub from_terms: ShareTerms,
    pub to_cid_full: String,
    pub created_at: u64,
}

/// A signed connection request (kept by the receiver while it is reviewed).
#[derive(Debug)]
pub struct SignedRequest {
    pub payload: RequestPayload,
    pub sig_b58: String,
}

/// An acceptance payload, signed by the accepting network.
#[derive(Debug)]
pub struct AcceptPayload {
    pub v: u8,
    /// Must match the nonce of the request.
    pub request_nonce_b58: String,
    pub from_cid_full: String,
    pub from_pubkey_b58: String,
    pub from_name: String,
    pub from_terms: ShareTerms,
    pub accepted_at: u64,
}

/// The agreement binding two networks: the request signed by the requester and the
/// acceptance signed by the acceptor. Either side can check it alone.
#[derive(Debug)]
pub struct ShareAgreement {
    pub request: RequestPayload,
    pub sig_request_b58: String,
    pub acceptance: AcceptPayload,
    pub sig_acceptance_b58: String,
}

/// The record that a network keeps of one connection.
#[derive(Debug)]
pub struct ConnectionRecord {
    pub peer_cid_full: String,
    pub peer_cid_short: String,
    pub peer_name: String,
    pub peer_pubkey_b58: String,
    pub state: ConnectionState,
    pub initiated_at: u64,
    pub updated_at: u64,
    /// What this network exposes to the peer.
    pub our_terms: ShareTerms,
    /// What the peer exposes to this network (known once active).
    pub their_terms: Option<ShareTerms>,
    /// The requester's signed request, kept while validating.
    pub incoming_request: Option<SignedRequest>,
    /// The signed agreement, once active.
    pub apc: Option<ShareAgreement>,
}

impl ConnectionRecord {
    /// The connection is active and the peer exposes its member directory.
    pub fn exposes_directory(&self) -> (b: bool)
        ensures
            b == (self.state is Active && (self.their_terms matches Some(t) && t.expose_member_directory)),
    {
        match self.state {
            ConnectionState::Active => match self.their_terms {
                Some(t) => t.expose_member_directory,
                None => false,
            },
            _ => false,
        }
    }
}

/// The JSON text of share terms.
pub open spec fn terms_json(t: ShareTerms) -> Seq<char> {
    seq!['{'] + json_member("expose_member_directory"@, json_bool(t.expose_member_directory))
        + seq![','] + json_member("privacy"@, json_bool(t.privacy)) + seq!['}']
}

/// The JSON text of a request payload (the bytes the requester signs).
pub open spec fn request_json(p: RequestPayload) -> Seq<char> {
    seq!['{'] + json_num_member("v"@, p.v as nat) + seq![','] + json_str_member("nonce_b58"@, p.nonce_b58@)
        + seq![','] + json_str_member("from_cid_full"@, p.from_cid_full@) + seq![',']
        + json_str_member("from_pubkey_b58"@, p.from_pubkey_b58@) + seq![',']
        + json_str_member("from_name"@, p.from_name@) + seq![','] + json_member(
        "from_terms"@,
        terms_json(p.from_terms),
    ) + seq![','] + json_str_member("to_cid_full"@, p.to_cid_full@) + seq![',']
        + json_num_member("created_at"@, p.created_at as nat) + seq!['}']
}

/// The JSON text of an acceptance payload (the bytes the acceptor signs).
pub open spec fn accept_json(p: AcceptPayload) -> Seq<char> {
    seq!['{'] + json_num_member("v"@, p.v as nat) + seq![','] + json_str_member(
        "request_nonce_b58"@,
        p.request_nonce_b58@,
    ) + seq![','] + json_str_member("from_cid_full"@, p.from_cid_full@) + seq![',']
        + json_str_member("from_pubkey_b58"@, p.from_pubkey_b58@) + seq![',']
        + json_str_member("from_name"@, p.from_name@) + seq![','] + json_member(
        "from_terms"@,
        terms_json(p.from_terms),
    ) + seq![','] + json_num_member("accepted_at"@, p.accepted_at as nat) + seq!['}']
}

/// `sig_b58` is a valid signature of `msg` by the 32-byte key whose Base58 text is
/// `pubkey_b58`.
pub open spec fn signature_ok(pubkey_b58: Seq<char>, msg: Seq<u8>, sig_b58: Seq<char>) -> bool {
    &&& bs58_value(pubkey_b58) matches Some(pk)
    &&& pk.len() == 32
    &&& ed25519_key_valid(pk)
    &&& bs58_value(sig_b58) matches Some(sig)
    &&& ed25519_accepts(pk, msg, sig)
}

/// The signed request carries a valid signature of its payload.
pub open spec fn request_signed(r: SignedRequest) -> bool {
    signature_ok(r.payload.from_pubkey_b58@, encode_utf8(request_json(r.payload)), r.sig_b58@)
}

/// Both signatures of the agreement are valid and the acceptance answers the request.
pub open spec fn agreement_valid(a: ShareAgreement) -> bool {
    &&& signature_ok(a.request.from_pubkey_b58@, encode_utf8(request_json(a.request)), a.sig_request_b58@)
    &&& signature_ok(a.acceptance.from_pubkey_b58@, encode_utf8(accept_json(a.acceptance)), a.sig_acceptance_b58@)
    &&& a.acceptance.request_nonce_b58@ == a.request.nonce_b58@
}

fn push_terms(out: &mut String, t: ShareTerms)
    ensures
        final(out)@ == old(out)@ + terms_json(t),
{
    let ghost start = out@;
    push_char(out, '{');
    push_bool_member(out, "expose_member_directory", t.expose_member_directory);
    push_char(out, ',');
    push_bool_member(out, "privacy", t.privacy);
    push_char(out, '}');
    assert(out@ =~= start + terms_json(t));
}

impl RequestPayload {
    /// The JSON text of the payload.
    pub fn to_json(&self) -> (s: String)
        ensures
            s@ == request_json(*self),
    {
        let mut s = String::new();
        push_char(&mut s, '{');
        push_num_member(&mut s, "v", self.v as u64);
        push_char(&mut s, ',');
        push_str_member(&mut s, "nonce_b58", self.nonce_b58.as_str());
        push_char(&mut s, ',');
        push_str_member(&mut s, "from_cid_full", self.from_cid_full.as_str());
        push_char(&mut s, ',');
        push_str_member(&mut s, "from_pubkey_b58", self.from_pubkey_b58.as_str());
        push_char(&mut s, ',');
        push_str_member(&mut s, "from_name", self.from_name.as_str());
        push_char(&mut s, ',');
        push_json_string(&mut s, "from_terms");
        push_char(&mut s, ':');
        push_terms(&mut s, self.from_terms);
        push_char(&mut s, ',');
        push_str_member(&mut s, "to_cid_full", self.to_cid_full.as_str());
        push_char(&mut s, ',');
        push_num_member(&mut s, "created_at", self.created_at);
        push_char(&mut s, '}');
        assert(s@ =~= request_json(*self));
        s
    }

    /// An exact copy.
    pub fn copy(&self) -> (r: RequestPayload)
        ensures
            r == *self,
    {
        RequestPayload {
            v: self.v,
            nonce_b58: self.nonce_b58.clone(),
            from_cid_full: self.from_cid_full.clone(),
            from_pubkey_b58: self.from_pubkey_b58.clone(),
            from_name: self.from_name.clone(),
            from_terms: self.from_terms,
            to_cid_full: self.to_cid_full.clone(),
            created_at: self.created_at,
        }
    }
}

impl AcceptPayload {
    /// The JSON text of the payload.
    pub fn to_json(&self) -> (s: String)
        ensures
            s@ == accept_json(*self),
    {
        let mut s = String::new();
        push_char(&mut s, '{');
        push_num_member(&mut s, "v", self.v as u64);
        push_char(&mut s, ',');
        push_str_member(&mut s, "request_nonce_b58", self.request_nonce_b58.as_str());
        push_char(&mut s, ',');
        push_str_member(&mut s, "from_cid_full", self.from_cid_full.as_str());
        push_char(&mut s, ',');
        push_str_member(&mut s, "from_pubkey_b58", self.from_pubkey_b58.as_str());
        push_char(&mut s, ',');
        push_str_member(&mut s, "from_name", self.from_name.as_str());
        push_char(&mut s, ',');
        push_json_string(&mut s, "from_terms");
        push_char(&mut s, ':');
        push_terms(&mut s, self.from_terms);
        push_char(&mut s, ',');
        push_num_member(&mut s, "accepted_at", self.accepted_at);
        push_char(&mut s, '}');
        assert(s@ =~= accept_json(*self));
        s
    }

    /// An exact copy.
    pub fn copy(&self) -> (r: AcceptPayload)
        ensures
            r == *self,
    {
        AcceptPayload {
            v: self.v,
            request_nonce_b58: self.request_nonce_b58.clone(),
            from_cid_full: self.from_cid_full.clone(),
            from_pubkey_b58: self.from_pubkey_b58.clone(),
            from_name: self.from_name.clone(),
            from_terms: self.from_terms,
            accepted_at: self.accepted_at,
        }
    }
}

impl SignedRequest {
    /// An exact copy.
    pub fn copy(&self) -> (r: SignedRequest)
        ensures
            r == *self,
    {
        SignedRequest { payload: self.payload.copy(), sig_b58: self.sig_b58.clone() }
    }
}

/// Checks an Ed25519 signature given in Base58 against a Base58 public key; a `Network`
/// error when either text is not Base58, the key is not 32 bytes or does not parse, or
/// the signature does not verify.
pub fn verify_ed25519_sig(pubkey_b58: &str, msg: &[u8], sig_b58: &str) -> (r: Result<(), CiviumError>)
    ensures
        r is Ok <==> signature_ok(pubkey_b58@, msg@, sig_b58@),
        r matches Err(e) ==> e is Network,
{
    let pk = match bs58_decode(pubkey_b58) {
        None => return Err(CiviumError::Network(owned("invalid base58 public key in APC"))),
        Some(b) => b,
    };
    if pk.len() != 32 {
        return Err(CiviumError::Network(owned("invalid public key length in APC")));
    }
    let sig = match bs58_decode(sig_b58) {
        None => return Err(CiviumError::Network(owned("invalid base58 signature in APC"))),
        Some(b) => b,
    };
    match ed25519_verify(pk.as_slice(), msg, sig.as_slice()) {
        None => Err(CiviumError::Network(owned("invalid public key in APC"))),
        Some(false) => Err(CiviumError::Network(owned("invalid APC signature"))),
        Some(true) => Ok(()),
    }
}

impl ShareAgreement {
    /// Builds and signs a connection request at time `now` with the given nonce (called
    /// by the requesting network).
    pub fn build_request_at(
        from_keypair: &CiviumKeypair,
        from_name: &str,
        from_terms: ShareTerms,
        to_cid_full: &str,
        now: u64,
        nonce: &[u8; 16],
    ) -> (r: Result<SignedRequest, CiviumError>)
        ensures
            r matches Ok(req) && {
                &&& req.payload.v == 1
                &&& req.payload.nonce_b58@ == bs58_text(nonce@)
                &&& req.payload.from_cid_full@ == cid_full_of(from_keypair.public_view())
                &&& req.payload.from_pubkey_b58@ == bs58_text(from_keypair.public_view())
                &&& req.payload.from_name@ == from_name@
                &&& req.payload.from_terms == from_terms
                &&& req.payload.to_cid_full@ == to_cid_full@
                &&& req.payload.created_at == now
                &&& request_signed(req)
            },
    {
        let cid = from_keypair.cid();
        let pk = from_keypair.public_key_bytes();
        let payload = RequestPayload {
            v: 1,
            nonce_b58: bs58_encode(nonce),
            from_cid_full: owned(cid.full()),
            from_pubkey_b58: bs58_encode(pk),
            from_name: owned(from_name),
            from_terms,
            to_cid_full: owned(to_cid_full),
            created_at: now,
        };
        let json = payload.to_json();
        let sig = from_keypair.sign(json.as_str().as_bytes());
        Ok(SignedRequest { payload, sig_b58: bs58_encode(sig.as_slice()) })
    }

    /// Builds and signs a connection request now, with a fresh random nonce.
    pub fn build_request(
        from_keypair: &CiviumKeypair,
        from_name: &str,
        from_terms: ShareTerms,
        to_cid_full: &str,
    ) -> (r: Result<SignedRequest, CiviumError>)
        ensures
            r matches Ok(req) && {
                &&& req.payload.from_cid_full@ == cid_full_of(from_keypair.public_view())
                &&& req.payload.from_name@ == from_name@
                &&& req.payload.from_terms == from_terms
                &&& req.payload.to_cid_full@ == to_cid_full@
                &&& request_signed(req)
            },
    {
        let now = unix_now();
        let nonce = random_16();
        Self::build_request_at(from_keypair, from_name, from_terms, to_cid_full, now, &nonce)
    }

    /// Countersigns a request at time `now` (called by the accepting network): checks the
    /// requester's signature (a `Network` error if it fails), then signs an acceptance
    /// that carries the request's nonce. The agreement built is valid.
    pub fn build_from_acceptance_at(
        signed_request: &SignedRequest,
        acceptor_keypair: &CiviumKeypair,
        acceptor_name: &str,
        acceptor_terms: ShareTerms,
        now: u64,
    ) -> (r: Result<ShareAgreement, CiviumError>)
        ensures
            r is Ok <==> request_signed(*signed_request),
            r matches Err(e) ==> e is Network,
            r matches Ok(a) ==> {
                &&& a.request == signed_request.payload
                &&& a.sig_request_b58 == signed_request.sig_b58
                &&& a.acceptance.v == 1
                &&& a.acceptance.request_nonce_b58@ == signed_request.payload.nonce_b58@
                &&& a.acceptance.from_cid_full@ == cid_full_of(acceptor_keypair.public_view())
                &&& a.acceptance.from_pubkey_b58@ == bs58_text(acceptor_keypair.public_view())
                &&& a.acceptance.from_name@ == acceptor_name@
                &&& a.acceptance.from_terms == acceptor_terms
                &&& a.acceptance.accepted_at == now
                &&& agreement_valid(a)
            },
    {
        let req_json = signed_request.payload.to_json();
        match verify_ed25519_sig(
            signed_request.payload.from_pubkey_b58.as_str(),
            req_json.as_str().as_bytes(),
            signed_request.sig_b58.as_str(),
        ) {
            Err(e) => return Err(e),
            Ok(()) => {},
        }
        let cid = acceptor_keypair.cid();
        let pk = acceptor_keypair.public_key_bytes();
        let acceptance = AcceptPayload {
            v: 1,
            request_nonce_b58: signed_request.payload.nonce_b58.clone(),
            from_cid_full: owned(cid.full()),
            from_pubkey_b58: bs58_encode(pk),
            from_name: owned(acceptor_name),
            from_terms: acceptor_terms,
            accepted_at: now,
        };
        let acc_json = acceptance.to_json();
        let sig = acceptor_keypair.sign(acc_json.as_str().as_bytes());
        Ok(ShareAgreement {
            request: signed_request.payload.copy(),
            sig_request_b58: signed_request.sig_b58.clone(),
            acceptance,
            sig_acceptance_b58: bs58_encode(sig.as_slice()),
        })
    }

    /// Countersigns a request now (see `build_from_acceptance_at`).
    pub fn build_from_acceptance(
        signed_request: &SignedRequest,
        acceptor_keypair: &CiviumKeypair,
        acceptor_name: &str,
        acceptor_terms: ShareTerms,
    ) -> (r: Result<ShareAgreement, CiviumError>)
        ensures
            r is Ok <==> request_signed(*signed_request),
            r matches Err(e) ==> e is Network,
            r matches Ok(a) ==> a.request == signed_request.payload && a.acceptance.from_terms == acceptor_terms
                && agreement_valid(a),
    {
        let now = unix_now();
        Self::build_from_acceptance_at(signed_request, acceptor_keypair, acceptor_name, acceptor_terms, now)
    }

    /// Checks both signatures and that the acceptance answers the request (same nonce);
    /// a `Network` error otherwise.
    pub fn verify(&self) -> (r: Result<(), CiviumError>)
        ensures
            r is Ok <==> agreement_valid(*self),
            r matches Err(e) ==> e is Network,
    {
        let req_json = self.request.to_json();
        match verify_ed25519_sig(self.request.from_pubkey_b58.as_str(), req_json.as_str().as_bytes(), self.sig_request_b58.as_str()) {
            Err(e) => return Err(e),
            Ok(()) => {},
        }
        let acc_json = self.acceptance.to_json();
        match verify_ed25519_sig(
            self.acceptance.from_pubkey_b58.as_str(),
            acc_json.as_str().as_bytes(),
            self.sig_acceptance_b58.as_str(),
        ) {
            Err(e) => return Err(e),
            Ok(()) => {},
        }
        if !str_eq(self.acceptance.request_nonce_b58.as_str(), self.request.nonce_b58.as_str()) {
            return Err(CiviumError::Network(owned("APC nonce mismatch — acceptance does not match the request")));
        }
        Ok(())
    }

    /// An exact copy.
    pub fn copy(&self) -> (r: ShareAgreement)
        ensures
            r == *self,
    {
        ShareAgreement {
            request: self.request.copy(),
            sig_request_b58: self.sig_request_b58.clone(),
            acceptance: self.acceptance.copy(),
            sig_acceptance_b58: self.sig_acceptance_b58.clone(),
        }
    }
}

/// The connection records of one network.
#[derive(Debug)]
pub struct ConnectionStore {
    pub connections: Vec<ConnectionRecord>,
}

/// Index of the first record whose peer has the full CID `peer`, or -1.
pub open spec fn conn_pos(s: Seq<ConnectionRecord>, peer: Seq<char>) -> int
    decreases s.len(),
{
    if s.len() == 0 {
        -1
    } else {
        let p = conn_pos(s.drop_last(), peer);
        if p != -1 {
            p
        } else if s.last().peer_cid_full@ == peer {
            s.len() - 1
        } else {
            -1
        }
    }
}

proof fn lemma_conn_pos(s: Seq<ConnectionRecord>, peer: Seq<char>)
    ensures
        -1 <= conn_pos(s, peer) < s.len(),
        conn_pos(s, peer) >= 0 ==> s[conn_pos(s, peer)].peer_cid_full@ == peer,
        forall|j: int| 0 <= j < s.len() && (conn_pos(s, peer) == -1 || j < conn_pos(s, peer))
            ==> #[trigger] s[j].peer_cid_full@ != peer,
    decreases s.len(),
{
    if s.len() > 0 {
        lemma_conn_pos(s.drop_last(), peer);
        assert forall|j: int| 0 <= j < s.len() && (conn_pos(s, peer) == -1 || j < conn_pos(s, peer))
            implies #[trigger] s[j].peer_cid_full@ != peer by {
            if j < s.len() - 1 {
                assert(s[j] == s.drop_last()[j]);
            }
        }
    }
}

/// The record of `r` with a new state and update time.
pub open spec fn with_state(r: ConnectionRecord, st: ConnectionState, now: u64) -> ConnectionRecord {
    ConnectionRecord { state: st, updated_at: now, ..r }
}

/// Index of the first record for the peer with full CID `peer_cid_full`.
pub fn find_conn(conns: &Vec<ConnectionRecord>, peer_cid_full: &str) -> (r: Option<usize>)
    ensures
        match r {
            Some(i) => i as int == conn_pos(conns@, peer_cid_full@),
            None => conn_pos(conns@, peer_cid_full@) == -1,
        },
        -1 <= conn_pos(conns@, peer_cid_full@) < conns@.len(),
        conn_pos(conns@, peer_cid_full@) >= 0 ==> conns@[conn_pos(conns@, peer_cid_full@)].peer_cid_full@ == peer_cid_full@,
{
    proof {
        lemma_conn_pos(conns@, peer_cid_full@);
    }
    let mut i: usize = 0;
    while i < conns.len()
        invariant
            i <= conns.len(),
            -1 <= conn_pos(conns@, peer_cid_full@) < conns@.len(),
            conn_pos(conns@, peer_cid_full@) >= 0 ==> conns@[conn_pos(conns@, peer_cid_full@)].peer_cid_full@ == peer_cid_full@,
            forall|j: int| 0 <= j < i ==> #[trigger] conns@[j].peer_cid_full@ != peer_cid_full@,
            forall|j: int| 0 <= j < conns@.len() && (conn_pos(conns@, peer_cid_full@) == -1 || j < conn_pos(conns@, peer_cid_full@))
                ==> #[trigger] conns@[j].peer_cid_full@ != peer_cid_full@,
        decreases conns.len() - i,
    {
        if str_eq(conns[i].peer_cid_full.as_str(), peer_cid_full) {
            return Some(i);
        }
        i = i + 1;
    }
    None
}

/// Refuses a second record for the same peer: a `Network` error when a record for
/// `peer_cid_full` exists.
pub fn guard_no_duplicate(store: &ConnectionStore, peer_cid_full: &str) -> (r: Result<(), CiviumError>)
    ensures
        r is Ok <==> conn_pos(store.connections@, peer_cid_full@) == -1,
        r matches Err(e) ==> e is Network,
{
    match find_conn(&store.connections, peer_cid_full) {
        Some(_) => Err(CiviumError::Network(owned("a connection record for this network already exists"))),
        None => Ok(()),
    }
}

/// A record keeps a signed request only while validating and an agreement only while
/// the link is active.
pub open spec fn record_ok(r: ConnectionRecord) -> bool {
    &&& r.incoming_request is Some ==> r.state is Validating
    &&& r.apc is Some ==> r.state is Active
}

/// Every record of the store is `record_ok`.
pub open spec fn records_ok(s: Seq<ConnectionRecord>) -> bool {
    forall|j: int| 0 <= j < s.len() ==> record_ok(#[trigger] s[j])
}

/// Changing the record of a peer keeps it findable: the record at the peer's position,
/// replaced by one for the same peer, is still the first for that peer. In particular,
/// once a peer has a record (in any state, blocked or refused included), a new request
/// to it is refused (see `ConnectionStore::add_request`).
pub proof fn lemma_update_keeps_record(s: Seq<ConnectionRecord>, peer: Seq<char>, r: ConnectionRecord)
    requires
        conn_pos(s, peer) != -1,
        r.peer_cid_full == s[conn_pos(s, peer)].peer_cid_full,
    ensures
        conn_pos(s.update(conn_pos(s, peer), r), peer) == conn_pos(s, peer),
{
    let i = conn_pos(s, peer);
    let t = s.update(i, r);
    lemma_conn_pos(s, peer);
    lemma_conn_pos(t, peer);
    let k = conn_pos(t, peer);
    assert(t[i].peer_cid_full@ == peer);
    if k != -1 && k < i {
        assert(t[k] == s[k]);
    }
}

/// No two records are for the same peer.
pub open spec fn peers_distinct(s: Seq<ConnectionRecord>) -> bool {
    forall|i: int, j: int| 0 <= i < s.len() && 0 <= j < s.len() && i != j ==> #[trigger] s[i].peer_cid_full@
        != #[trigger] s[j].peer_cid_full@
}

impl ConnectionStore {
    /// An empty store.
    pub fn new() -> (s: ConnectionStore)
        ensures
            s.connections@.len() == 0,
    {
        ConnectionStore { connections: Vec::new() }
    }

    /// Records our outgoing request (state `Requested`); a `Network` error, and no change,
    /// when a record for that peer exists.
    pub fn add_request(&mut self, rec: ConnectionRecord) -> (r: Result<(), CiviumError>)
        ensures
            r is Ok <==> conn_pos(old(self).connections@, rec.peer_cid_full@) == -1,
            r is Ok ==> final(self).connections@ == old(self).connections@.push(rec),
            r is Err ==> final(self).connections@ == old(self).connections@,
            r matches Err(e) ==> e is Network,
            peers_distinct(old(self).connections@) ==> peers_distinct(final(self).connections@),
            records_ok(old(self).connections@) && record_ok(rec) ==> records_ok(final(self).connections@),
    {
        match guard_no_duplicate(self, rec.peer_cid_full.as_str()) {
            Err(e) => Err(e),
            Ok(()) => {
                proof {
                    lemma_conn_pos(self.connections@, rec.peer_cid_full@);
                }
                self.connections.push(rec);
                proof {
                    let s = self.connections@;
                    assert forall|a: int, b: int|
                        0 <= a < s.len() && 0 <= b < s.len() && a != b && peers_distinct(old(self).connections@)
                            implies #[trigger] s[a].peer_cid_full@ != #[trigger] s[b].peer_cid_full@ by {
                        if a == s.len() - 1 {
                            assert(old(self).connections@[b] == s[b]);
                        } else if b == s.len() - 1 {
                            assert(old(self).connections@[a] == s[a]);
                        }
                    }
                }
                Ok(())
            },
        }
    }

    /// Records a request received from a peer (state `Validating`).
    pub fn add_incoming(&mut self, rec: ConnectionRecord)
        ensures
            final(self).connections@ == old(self).connections@.push(rec),
            records_ok(old(self).connections@) && record_ok(rec) ==> records_ok(final(self).connections@),
    {
        self.connections.push(rec);
    }

    /// Our admin accepts the request of the peer `peer_cid_full` at time `now`: the record
    /// must exist (else a `Network` error) and be `Validating` (else a `Network` error) and
    /// hold the signed request (else a `Network` error); the request's signature must
    /// check. The record becomes `Active` with our terms, their terms, the agreement and
    /// no stored request. Returns the agreement.
    #[verifier::spinoff_prover]
    #[verifier::rlimit(40)]
    pub fn accept_at(
        &mut self,
        peer_cid_full: &str,
        acceptor_keypair: &CiviumKeypair,
        acceptor_name: &str,
        our_terms: ShareTerms,
        now: u64,
    ) -> (r: Result<ShareAgreement, CiviumError>)
        ensures
            r matches Err(e) ==> e is Network,
            r is Err ==> final(self).connections@ == old(self).connections@,
            records_ok(old(self).connections@) ==> records_ok(final(self).connections@),
            ({
                let i = conn_pos(old(self).connections@, peer_cid_full@);
                let rec = old(self).connections@[i];
                r is Ok <==> (i != -1 && rec.state is Validating && (rec.incoming_request matches Some(req) && request_signed(req)))
            }),
            r matches Ok(a) ==> {
                let i = conn_pos(old(self).connections@, peer_cid_full@);
                let rec = old(self).connections@[i];
                &&& agreement_valid(a)
                &&& a.request == rec.incoming_request->Some_0.payload
                &&& a.acceptance.from_terms == our_terms
                &&& a.acceptance.accepted_at == now
                &&& final(self).connections@ == old(self).connections@.update(i, ConnectionRecord {
                    state: ConnectionState::Active,
                    our_terms,
                    their_terms: Some(a.request.from_terms),
                    incoming_request: None,
                    apc: Some(a),
                    updated_at: now,
                    ..rec
                })
            },
    {
        let i = match find_conn(&self.connections, peer_cid_full) {
            None => return Err(CiviumError::Network(owned("no connection request from this network"))),
            Some(i) => i,
        };
        match self.connections[i].state {
            ConnectionState::Validating => {},
            _ => return Err(CiviumError::Network(owned("connection is not in state Validating"))),
        }
        let apc = match &self.connections[i].incoming_request {
            None => return Err(CiviumError::Network(owned("missing request payload in connection record"))),
            Some(req) => match ShareAgreement::build_from_acceptance_at(req, acceptor_keypair, acceptor_name, our_terms, now) {
                Err(e) => return Err(e),
                Ok(a) => a,
            },
        };
        let mut rec = self.connections.remove(i);
        rec.state = ConnectionState::Active;
        rec.our_terms = our_terms;
        rec.their_terms = Some(apc.request.from_terms);
        rec.incoming_request = None;
        rec.apc = Some(apc.copy());
        rec.updated_at = now;
        self.connections.insert(i, rec);
        Ok(apc)
    }

    /// The requester learns that the peer `acceptor_cid_full` accepted: its record becomes
    /// `Active` with the acceptor's terms and the agreement. A `Network` error, and no
    /// change, when there is no record for that peer.
    pub fn confirm_accepted(
        &mut self,
        acceptor_cid_full: &str,
        their_terms: ShareTerms,
        apc: ShareAgreement,
        now: u64,
    ) -> (r: Result<(), CiviumError>)
        ensures
            records_ok(old(self).connections@) && (conn_pos(old(self).connections@, acceptor_cid_full@) == -1
                || old(self).connections@[conn_pos(old(self).connections@, acceptor_cid_full@)].incoming_request is None)
                ==> records_ok(final(self).connections@),
            ({
                let i = conn_pos(old(self).connections@, acceptor_cid_full@);
                if i == -1 {
                    r matches Err(e) && e is Network && final(self).connections@ == old(self).connections@
                } else {
                    r is Ok && final(self).connections@ == old(self).connections@.update(i, ConnectionRecord {
                        state: ConnectionState::Active,
                        their_terms: Some(their_terms),
                        apc: Some(apc),
                        updated_at: now,
                        ..old(self).connections@[i]
                    })
                }
            }),
    {
        let i = match find_conn(&self.connections, acceptor_cid_full) {
            None => return Err(CiviumError::Network(owned("no pending record on requester side"))),
            Some(i) => i,
        };
        let mut rec = self.connections.remove(i);
        rec.state = ConnectionState::Active;
        rec.their_terms = Some(their_terms);
        rec.apc = Some(apc);
        rec.updated_at = now;
        self.connections.insert(i, rec);
        Ok(())
    }

    /// Our admin refuses the request of `peer_cid_full`: the record becomes `Refused` with
    /// the reason, without the stored request. A `Network` error, and no change, when
    /// there is no record for that peer.
    pub fn refuse(&mut self, peer_cid_full: &str, reason: Option<String>, now: u64) -> (r: Result<(), CiviumError>)
        ensures
            records_ok(old(self).connections@) && (conn_pos(old(self).connections@, peer_cid_full@) == -1
                || old(self).connections@[conn_pos(old(self).connections@, peer_cid_full@)].apc is None)
                ==> records_ok(final(self).connections@),
            ({
                let i = conn_pos(old(self).connections@, peer_cid_full@);
                if i == -1 {
                    r matches Err(e) && e is Network && final(self).connections@ == old(self).connections@
                } else {
                    r is Ok && final(self).connections@ == old(self).connections@.update(i, ConnectionRecord {
                        state: ConnectionState::Refused { reason },
                        incoming_request: None,
                        updated_at: now,
                        ..old(self).connections@[i]
                    })
                }
            }),
    {
        let i = match find_conn(&self.connections, peer_cid_full) {
            None => return Err(CiviumError::Network(owned("no connection request from this network"))),
            Some(i) => i,
        };
        let mut rec = self.connections.remove(i);
        rec.state = ConnectionState::Refused { reason };
        rec.incoming_request = None;
        rec.updated_at = now;
        self.connections.insert(i, rec);
        Ok(())
    }

    /// The other side refused (or blocked) us: our record for `peer_cid_full`, if any,
    /// becomes `Refused` with the reason. Returns whether there was one.
    pub fn mark_refused(&mut self, peer_cid_full: &str, reason: Option<String>, now: u64) -> (found: bool)
        ensures
            records_ok(old(self).connections@) && (conn_pos(old(self).connections@, peer_cid_full@) == -1 || ({
                let rec = old(self).connections@[conn_pos(old(self).connections@, peer_cid_full@)];
                rec.incoming_request is None && rec.apc is None
            })) ==> records_ok(final(self).connections@),
            ({
                let i = conn_pos(old(self).connections@, peer_cid_full@);
                if i == -1 {
                    !found && final(self).connections@ == old(self).connections@
                } else {
                    found && final(self).connections@ == old(self).connections@.update(
                        i,
                        with_state(old(self).connections@[i], ConnectionState::Refused { reason }, now),
                    )
                }
            }),
    {
        let i = match find_conn(&self.connections, peer_cid_full) {
            None => return false,
            Some(i) => i,
        };
        let mut rec = self.connections.remove(i);
        rec.state = ConnectionState::Refused { reason };
        rec.updated_at = now;
        self.connections.insert(i, rec);
        true
    }

    /// We block `peer_cid_full`: the record becomes `Blocked`, without the stored request
    /// or agreement. A `Network` error, and no change, when there is no record for that
    /// peer. (The peer is then shown `Refused`, with no reason: see `mark_refused`.)
    pub fn block(&mut self, peer_cid_full: &str, now: u64) -> (r: Result<(), CiviumError>)
        ensures
            records_ok(old(self).connections@) ==> records_ok(final(self).connections@),
            ({
                let i = conn_pos(old(self).connections@, peer_cid_full@);
                if i == -1 {
                    r matches Err(e) && e is Network && final(self).connections@ == old(self).connections@
                } else {
                    r is Ok && final(self).connections@ == old(self).connections@.update(i, ConnectionRecord {
                        state: ConnectionState::Blocked,
                        incoming_request: None,
                        apc: None,
                        updated_at: now,
                        ..old(self).connections@[i]
                    })
                }
            }),
    {
        let i = match find_conn(&self.connections, peer_cid_full) {
            None => return Err(CiviumError::Network(owned("no connection record for this network"))),
            Some(i) => i,
        };
        let mut rec = self.connections.remove(i);
        rec.state = ConnectionState::Blocked;
        rec.incoming_request = None;
        rec.apc = None;
        rec.updated_at = now;
        self.connections.insert(i, rec);
        Ok(())
    }

    /// We revoke the active connection with `peer_cid_full`: the record becomes `Revoked`,
    /// without the agreement. A `Network` error, and no change, when there is no record
    /// for that peer or it is not `Active`.
    pub fn revoke(&mut self, peer_cid_full: &str, now: u64) -> (r: Result<(), CiviumError>)
        ensures
            records_ok(old(self).connections@) ==> records_ok(final(self).connections@),
            ({
                let i = conn_pos(old(self).connections@, peer_cid_full@);
                if i == -1 || !(old(self).connections@[i].state is Active) {
                    r matches Err(e) && e is Network && final(self).connections@ == old(self).connections@
                } else {
                    r is Ok && final(self).connections@ == old(self).connections@.update(i, ConnectionRecord {
                        state: ConnectionState::Revoked,
                        apc: None,
                        updated_at: now,
                        ..old(self).connections@[i]
                    })
                }
            }),
    {
        let i = match find_conn(&self.connections, peer_cid_full) {
            None => return Err(CiviumError::Network(owned("no connection with this network"))),
            Some(i) => i,
        };
        match self.connections[i].state {
            ConnectionState::Active => {},
            _ => return Err(CiviumError::Network(owned("connection is not Active"))),
        }
        let mut rec = self.connections.remove(i);
        rec.state = ConnectionState::Revoked;
        rec.apc = None;
        rec.updated_at = now;
        self.connections.insert(i, rec);
        Ok(())
    }

    /// The other side revoked: our record for `peer_cid_full`, if any, becomes `Revoked`
    /// without the agreement. Returns whether there was one.
    pub fn mark_revoked(&mut self, peer_cid_full: &str, now: u64) -> (found: bool)
        ensures
            records_ok(old(self).connections@) && (conn_pos(old(self).connections@, peer_cid_full@) == -1
                || old(self).connections@[conn_pos(old(self).connections@, peer_cid_full@)].incoming_request is None)
                ==> records_ok(final(self).connections@),
            ({
                let i = conn_pos(old(self).connections@, peer_cid_full@);
                if i == -1 {
                    !found && final(self).connections@ == old(self).connections@
                } else {
                    found && final(self).connections@ == old(self).connections@.update(i, ConnectionRecord {
                        state: ConnectionState::Revoked,
                        apc: None,
                        updated_at: now,
                        ..old(self).connections@[i]
                    })
                }
            }),
    {
        let i = match find_conn(&self.connections, peer_cid_full) {
            None => return false,
            Some(i) => i,
        };
        let mut rec = self.connections.remove(i);
        rec.state = ConnectionState::Revoked;
        rec.apc = None;
        rec.updated_at = now;
        self.connections.insert(i, rec);
        true
    }

    /// Index of the first record whose peer's short or full CID starts with `prefix`.
    pub fn find_by_prefix(&self, prefix: &str) -> (r: Option<usize>)
        ensures
            r matches Some(i) ==> i < self.connections@.len() && (has_prefix(self.connections@[i as int].peer_cid_short@, prefix@)
                || has_prefix(self.connections@[i as int].peer_cid_full@, prefix@)),
            r matches Some(i) ==> forall|j: int| 0 <= j < i ==> !has_prefix(#[trigger] self.connections@[j].peer_cid_short@, prefix@),
            r matches Some(i) ==> forall|j: int| 0 <= j < i ==> !has_prefix(#[trigger] self.connections@[j].peer_cid_full@, prefix@),
            r is None ==> forall|j: int| 0 <= j < self.connections@.len() ==> !has_prefix(#[trigger] self.connections@[j].peer_cid_short@, prefix@),
            r is None ==> forall|j: int| 0 <= j < self.connections@.len() ==> !has_prefix(#[trigger] self.connections@[j].peer_cid_full@, prefix@),
    {
        let mut i: usize = 0;
        while i < self.connections.len()
            invariant
                i <= self.connections.len(),
                forall|j: int| 0 <= j < i ==> !has_prefix(#[trigger] self.connections@[j].peer_cid_short@, prefix@),
                forall|j: int| 0 <= j < i ==> !has_prefix(#[trigger] self.connections@[j].peer_cid_full@, prefix@),
            decreases self.connections.len() - i,
        {
            let a = starts_with(self.connections[i].peer_cid_short.as_str(), prefix);
            let b = starts_with(self.connections[i].peer_cid_full.as_str(), prefix);
            if a || b {
                return Some(i);
            }
            i = i + 1;
        }
        None
    }
}

} // verus!
