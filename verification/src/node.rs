//! The peer-to-peer node's protocol and its decisions: per-peer rate limiting, how an
//! inbound request is routed, the automatic acceptance of connection requests, and what
//! a synchronisation answers.
use vstd::prelude::*;
use crate::bootstrap::CIVIUM_ROOT_NETWORK_NAME;
use crate::connection::{ShareAgreement, ShareTerms, SignedRequest, agreement_valid, request_signed};
use crate::error::CiviumError;
use crate::identity::CiviumKeypair;
use crate::member::MemberRecord;
use crate::messaging::Message;
use crate::network::NetworkData;
use crate::text::{owned, str_eq};

verus! {

/// Most requests a peer may make within one window.
pub const RATE_LIMIT_MAX: u32 = 30;

/// Length of the rate-limit window, in seconds.
pub const RATE_LIMIT_WINDOW_SECS: u64 = 1;

/// Most inbound requests that may wait for an answer from the application.
pub const MAX_PENDING_RESPONSES: usize = 500;

/// A peer's counter is forgotten after this many seconds.
pub const RATE_COUNTER_EVICT_SECS: u64 = 300;

/// Listening and bootstrap settings of a node.
#[derive(Debug)]
pub struct NodeConfig {
    pub listen_tcp: String,
    pub listen_quic: String,
    pub listen_ws: Option<String>,
    pub external_addr: Option<String>,
    pub bootstrap_peers: Vec<String>,
    pub mcp_port: Option<u16>,
    pub auto_accept_connections: bool,
}

impl NodeConfig {
    /// Listen on every interface with system-chosen ports (TCP, QUIC and WebSocket), no
    /// external address, no bootstrap peers, no MCP port, no automatic acceptance.
    pub fn default_config() -> (c: NodeConfig)
        ensures
            c.listen_tcp@ == "/ip4/0.0.0.0/tcp/0"@,
            c.listen_quic@ == "/ip4/0.0.0.0/udp/0/quic-v1"@,
            c.listen_ws matches Some(w) && w@ == "/ip4/0.0.0.0/tcp/0/ws"@,
            c.external_addr is None,
            c.bootstrap_peers@.len() == 0,
            c.mcp_port is None,
            !c.auto_accept_connections,
    {
        NodeConfig {
            listen_tcp: owned("/ip4/0.0.0.0/tcp/0"),
            listen_quic: owned("/ip4/0.0.0.0/udp/0/quic-v1"),
            listen_ws: Some(owned("/ip4/0.0.0.0/tcp/0/ws")),
            external_addr: None,
            bootstrap_peers: Vec::new(),
            mcp_port: None,
            auto_accept_connections: false,
        }
    }
}

/// A request between nodes.
#[derive(Debug)]
pub enum CiviumRequest {
    Join { invite_link: String, member_cid_full: String, display_name: String },
    Sync { network_cid_full: String, since_ts: u64 },
    Ping,
    BroadcastAlert { payload_json: String, signature_b58: String },
    ConnectRequest { signed_request_json: String },
}

/// A response between nodes.
#[derive(Debug)]
pub enum CiviumResponse {
    JoinAccepted { network_data: NetworkData },
    JoinRejected { reason: String },
    SyncData { network_cid_full: String, members: Vec<MemberRecord>, messages: Vec<Message> },
    Pong,
    ConnectAccepted { apc_json: String },
    ConnectRejected { reason: String },
    Error { message: String },
}

/// Elapsed seconds from `earlier` to `now` (0 if `earlier` is later).
pub open spec fn since(now: u64, earlier: u64) -> int {
    if now >= earlier {
        now - earlier
    } else {
        0
    }
}

struct PeerCounter {
    peer: String,
    count: u32,
    window_start: u64,
}

/// Per-peer request counters over fixed one-second windows.
pub struct PeerRateLimiter {
    counters: Vec<PeerCounter>,
}

/// The counter of a peer: (requests in the window, start of the window).
pub type Counter = (u32, u64);


spec fn counter_pos(c: Seq<PeerCounter>, peer: Seq<char>) -> int
    decreases c.len(),
{
    if c.len() == 0 {
        -1
    } else {
        let p = counter_pos(c.drop_last(), peer);
        if p != -1 {
            p
        } else if c.last().peer@ == peer {
            c.len() - 1
        } else {
            -1
        }
    }
}

proof fn lemma_counter_pos(c: Seq<PeerCounter>, peer: Seq<char>)
    ensures
        -1 <= counter_pos(c, peer) < c.len(),
        counter_pos(c, peer) >= 0 ==> c[counter_pos(c, peer)].peer@ == peer,
        forall|j: int| 0 <= j < c.len() && (counter_pos(c, peer) == -1 || j < counter_pos(c, peer))
            ==> #[trigger] c[j].peer@ != peer,
    decreases c.len(),
{
    if c.len() > 0 {
        lemma_counter_pos(c.drop_last(), peer);
        assert forall|j: int| 0 <= j < c.len() && (counter_pos(c, peer) == -1 || j < counter_pos(c, peer))
            implies #[trigger] c[j].peer@ != peer by {
            if j < c.len() - 1 {
                assert(c[j] == c.drop_last()[j]);
            }
        }
    }
}

/// The counter that a rate check leaves for the peer, and whether it lets the request
/// through: a peer without a live counter (none, or one evicted because its window
/// started 300 s or more ago) starts at (0, now); a window that started a second or more
/// ago restarts at (1, now) and lets through; else the request passes while fewer than
/// 30 were counted.
pub open spec fn rate_step(old_counter: Option<Counter>, now: u64) -> (Counter, bool) {
    let c: Counter = match old_counter {
        Some(c) => if since(now, c.1) < RATE_COUNTER_EVICT_SECS { c } else { (0u32, now) },
        None => (0u32, now),
    };
    if since(now, c.1) >= RATE_LIMIT_WINDOW_SECS {
        ((1u32, now), true)
    } else if c.0 < RATE_LIMIT_MAX {
        (((c.0 + 1) as u32, c.1), true)
    } else {
        (c, false)
    }
}

impl PeerRateLimiter {
    /// The live counter of `peer`, if any.
    pub closed spec fn counter_of(&self, peer: Seq<char>) -> Option<Counter> {
        let p = counter_pos(self.counters@, peer);
        if p == -1 {
            None
        } else {
            Some((self.counters@[p].count, self.counters@[p].window_start))
        }
    }

    /// Every counter is at most 30.
    pub closed spec fn bounded(&self) -> bool {
        forall|i: int| 0 <= i < self.counters@.len() ==> (#[trigger] self.counters@[i]).count <= RATE_LIMIT_MAX
    }

    /// No counters.
    pub fn new() -> (r: PeerRateLimiter)
        ensures
            forall|p: Seq<char>| #[trigger] r.counter_of(p) is None,
            r.bounded(),
    {
        PeerRateLimiter { counters: Vec::new() }
    }

    /// Whether a request from `peer` at `now` is within its rate limit. Counters whose
    /// window started 300 s or more ago are forgotten first. Counts never exceed 30.
    pub fn check(&mut self, peer: &str, now: u64) -> (ok: bool)
        requires
            old(self).bounded(),
        ensures
            final(self).bounded(),
            ({
                let (c, pass) = rate_step(old(self).counter_of(peer@), now);
                &&& ok == pass
                &&& final(self).counter_of(peer@) == Some(c)
            }),
    {
        let ghost before = self.counters@;
        assert(forall|j: int| 0 <= j < before.len() ==> (#[trigger] before[j]).count <= RATE_LIMIT_MAX);
        proof {
            lemma_counter_pos(before, peer@);
        }
        let mut kept: Vec<PeerCounter> = Vec::new();
        let old_counters = &self.counters;
        let mut i: usize = 0;
        let mut found: Option<(u32, u64)> = None;
        while i < old_counters.len()
            invariant
                i <= old_counters.len(),
                old_counters@ == before,
                forall|j: int| 0 <= j < kept@.len() ==> (#[trigger] kept@[j]).count <= RATE_LIMIT_MAX,
                forall|j: int| 0 <= j < before.len() ==> (#[trigger] before[j]).count <= RATE_LIMIT_MAX,
                forall|j: int| 0 <= j < kept@.len() ==> #[trigger] kept@[j].peer@ != peer@,
                found matches Some(c) ==> Some(c) == (if counter_pos(before, peer@) == -1 {
                    None
                } else {
                    Some((before[counter_pos(before, peer@)].count, before[counter_pos(before, peer@)].window_start))
                }),
                found is None ==> (counter_pos(before, peer@) == -1 || counter_pos(before, peer@) >= i),
            decreases old_counters.len() - i,
        {
            proof {
                lemma_counter_pos(before, peer@);
            }
            let c = &old_counters[i];
            if str_eq(c.peer.as_str(), peer) {
                if found.is_none() {
                    found = Some((c.count, c.window_start));
                }
            } else {
                let age: u64 = if now >= c.window_start {
                    now - c.window_start
                } else {
                    0
                };
                if age < RATE_COUNTER_EVICT_SECS {
                    kept.push(PeerCounter { peer: c.peer.clone(), count: c.count, window_start: c.window_start });
                }
            }
            i = i + 1;
        }
        proof {
            lemma_counter_pos(before, peer@);
        }
        let start: (u32, u64) = match found {
            Some(c) => {
                let age: u64 = if now >= c.1 {
                    now - c.1
                } else {
                    0
                };
                if age < RATE_COUNTER_EVICT_SECS {
                    c
                } else {
                    (0, now)
                }
            },
            None => (0, now),
        };
        let age: u64 = if now >= start.1 {
            now - start.1
        } else {
            0
        };
        let (next, pass): ((u32, u64), bool) = if age >= RATE_LIMIT_WINDOW_SECS {
            ((1, now), true)
        } else if start.0 < RATE_LIMIT_MAX {
            ((start.0 + 1, start.1), true)
        } else {
            (start, false)
        };
        kept.push(PeerCounter { peer: owned(peer), count: next.0, window_start: next.1 });
        self.counters = kept;
        proof {
            let c = self.counters@;
            lemma_counter_pos(c, peer@);
            assert(c[c.len() - 1].peer@ == peer@);
            assert(counter_pos(c, peer@) == c.len() - 1);
        }
        pass
    }
}

/// Where an inbound request goes.
#[derive(Debug, PartialEq, Eq, Structural)]
pub enum InboundRoute {
    /// The peer exceeded its rate: answer with an error.
    RateLimited,
    /// A root alert: check it on the spot.
    VerifyAlert,
    /// A connection request accepted automatically.
    AutoAccept,
    /// Too many requests wait for the application: answer that the node is busy.
    Busy,
    /// Hand the request to the application.
    Forward,
}

/// The kind of an inbound request, as far as routing is concerned.
#[derive(Debug, Clone, Copy, PartialEq, Eq, Structural)]
pub enum RequestClass {
    Alert,
    Connect,
    Other,
}

impl CiviumRequest {
    /// The request's class.
    pub fn class(&self) -> (c: RequestClass)
        ensures
            (c == RequestClass::Alert) <==> (*self is BroadcastAlert),
            (c == RequestClass::Connect) <==> (*self is ConnectRequest),
    {
        match self {
            CiviumRequest::BroadcastAlert { .. } => RequestClass::Alert,
            CiviumRequest::ConnectRequest { .. } => RequestClass::Connect,
            _ => RequestClass::Other,
        }
    }
}

/// Where an inbound request goes (see `route_inbound`).
pub open spec fn inbound_route(class: RequestClass, within_rate: bool, auto_accept: bool, pending: usize) -> InboundRoute {
    if !within_rate {
        InboundRoute::RateLimited
    } else if class == RequestClass::Alert {
        InboundRoute::VerifyAlert
    } else if class == RequestClass::Connect && auto_accept {
        InboundRoute::AutoAccept
    } else if pending >= MAX_PENDING_RESPONSES {
        InboundRoute::Busy
    } else {
        InboundRoute::Forward
    }
}

/// The waiting requests stay within their bound: a request is handed to the
/// application (and so waits for an answer) only when fewer than 500 wait, so a node
/// that starts within the bound stays within it; a peer over its rate is answered at once.
pub proof fn lemma_pending_bound(class: RequestClass, within_rate: bool, auto_accept: bool, pending: usize)
    requires
        pending <= MAX_PENDING_RESPONSES,
    ensures
        inbound_route(class, within_rate, auto_accept, pending) == InboundRoute::Forward ==> pending + 1 <= MAX_PENDING_RESPONSES,
        !within_rate ==> inbound_route(class, within_rate, auto_accept, pending) == InboundRoute::RateLimited,
{
}

/// Routes an inbound request: refused when over the rate; root alerts are checked on the
/// spot; connection requests are accepted automatically when the node is set so; any
/// other request waits for the application unless 500 already wait.
pub fn route_inbound(class: RequestClass, within_rate: bool, auto_accept: bool, pending: usize) -> (r: InboundRoute)
    ensures
        r == inbound_route(class, within_rate, auto_accept, pending),
        !within_rate ==> r == InboundRoute::RateLimited,
        within_rate && class == RequestClass::Alert ==> r == InboundRoute::VerifyAlert,
        within_rate && class == RequestClass::Connect && auto_accept ==> r == InboundRoute::AutoAccept,
        within_rate && !(class == RequestClass::Alert) && !(class == RequestClass::Connect && auto_accept)
            ==> r == (if pending >= MAX_PENDING_RESPONSES { InboundRoute::Busy } else { InboundRoute::Forward }),
{
    if !within_rate {
        return InboundRoute::RateLimited;
    }
    match class {
        RequestClass::Alert => InboundRoute::VerifyAlert,
        RequestClass::Connect if auto_accept => InboundRoute::AutoAccept,
        _ => if pending >= MAX_PENDING_RESPONSES {
            InboundRoute::Busy
        } else {
            InboundRoute::Forward
        },
    }
}

/// Accepts a connection request automatically as the root network, with the default
/// terms (a `Network` error when the request's signature does not check).
#[verifier::spinoff_prover]
pub fn auto_accept(signed_request: &SignedRequest, keypair: &CiviumKeypair) -> (r: Result<ShareAgreement, CiviumError>)
    ensures
        r is Ok <==> request_signed(*signed_request),
        r matches Ok(a) ==> a.request == signed_request.payload && a.acceptance.from_terms == (ShareTerms {
            expose_member_directory: true,
            privacy: false,
        }) && agreement_valid(a),
        r matches Err(e) ==> e is Network,
{
    let terms = ShareTerms::default_terms();
    ShareAgreement::build_from_acceptance(signed_request, keypair, CIVIUM_ROOT_NETWORK_NAME, terms)
}

/// The members who joined after `since_ts`, in order.
pub open spec fn members_since(s: Seq<MemberRecord>, since_ts: u64) -> Seq<MemberRecord>
    decreases s.len(),
{
    if s.len() == 0 {
        Seq::empty()
    } else {
        let rest = members_since(s.drop_last(), since_ts);
        if s.last().joined_at > since_ts {
            rest.push(s.last())
        } else {
            rest
        }
    }
}

/// The messages sent after `since_ts`, in order.
pub open spec fn messages_since(s: Seq<Message>, since_ts: u64) -> Seq<Message>
    decreases s.len(),
{
    if s.len() == 0 {
        Seq::empty()
    } else {
        let rest = messages_since(s.drop_last(), since_ts);
        if s.last().sent_at > since_ts {
            rest.push(s.last())
        } else {
            rest
        }
    }
}

/// The answer to a synchronisation request: the members who joined and the messages
/// sent after `since_ts` (only items newer than it).
pub fn sync_data(network_cid_full: String, members: Vec<MemberRecord>, messages: Vec<Message>, since_ts: u64) -> (r: CiviumResponse)
    ensures
        r matches CiviumResponse::SyncData { network_cid_full: n, members: m, messages: g } && n == network_cid_full
            && m@ == members_since(members@, since_ts) && g@ == messages_since(messages@, since_ts),
{
    let ghost om = members@;
    let mut members = members;
    let mut out_m: Vec<MemberRecord> = Vec::new();
    let ghost mut i: int = 0;
    assert(om.subrange(0, 0) =~= Seq::<MemberRecord>::empty());
    assert(om.subrange(0, om.len() as int) =~= om);
    while members.len() > 0
        invariant
            0 <= i <= om.len(),
            members@ == om.subrange(i, om.len() as int),
            out_m@ == members_since(om.subrange(0, i), since_ts),
        decreases members.len(),
    {
        let m = members.remove(0);
        proof {
            let sub = om.subrange(0, i + 1);
            assert(sub.drop_last() =~= om.subrange(0, i));
            assert(sub.last() == m);
            assert(members@ =~= om.subrange(i + 1, om.len() as int));
        }
        if m.joined_at > since_ts {
            out_m.push(m);
        }
        proof {
            i = i + 1;
        }
    }
    assert(om.subrange(0, i) =~= om);
    let ghost og = messages@;
    let mut messages = messages;
    let mut out_g: Vec<Message> = Vec::new();
    let ghost mut k: int = 0;
    assert(og.subrange(0, 0) =~= Seq::<Message>::empty());
    assert(og.subrange(0, og.len() as int) =~= og);
    while messages.len() > 0
        invariant
            0 <= k <= og.len(),
            messages@ == og.subrange(k, og.len() as int),
            out_g@ == messages_since(og.subrange(0, k), since_ts),
        decreases messages.len(),
    {
        let g = messages.remove(0);
        proof {
            let sub = og.subrange(0, k + 1);
            assert(sub.drop_last() =~= og.subrange(0, k));
            assert(sub.last() == g);
            assert(messages@ =~= og.subrange(k + 1, og.len() as int));
        }
        if g.sent_at > since_ts {
            out_g.push(g);
        }
        proof {
            k = k + 1;
        }
    }
    assert(og.subrange(0, k) =~= og);
    CiviumResponse::SyncData { network_cid_full, members: out_m, messages: out_g }
}

/// A sync answer holds exactly the newer messages: every message in it was sent after
/// `since_ts` and comes from the input, and every input message sent after `since_ts` is
/// in it, in the input's order (its length is the number of such messages).
pub proof fn lemma_messages_since_law(s: Seq<Message>, since_ts: u64)
    ensures
        forall|i: int| 0 <= i < messages_since(s, since_ts).len() ==> (#[trigger] messages_since(s, since_ts)[i]).sent_at > since_ts
            && s.contains(messages_since(s, since_ts)[i]),
        forall|i: int| 0 <= i < s.len() && (#[trigger] s[i]).sent_at > since_ts ==> messages_since(s, since_ts).contains(s[i]),
        messages_since(s, since_ts).len() <= s.len(),
    decreases s.len(),
{
    if s.len() > 0 {
        let t = s.drop_last();
        lemma_messages_since_law(t, since_ts);
        let rest = messages_since(t, since_ts);
        let w = messages_since(s, since_ts);
        assert forall|i: int| 0 <= i < w.len() implies (#[trigger] w[i]).sent_at > since_ts && s.contains(w[i]) by {
            if i < rest.len() {
                assert(w[i] == rest[i]);
                assert(t.contains(rest[i]));
                let k = choose|k: int| 0 <= k < t.len() && t[k] == rest[i];
                assert(s[k] == t[k]);
            } else {
                assert(w[i] == s.last());
                assert(s[s.len() - 1] == s.last());
            }
        }
        assert forall|i: int| 0 <= i < s.len() && (#[trigger] s[i]).sent_at > since_ts implies w.contains(s[i]) by {
            if i < t.len() {
                assert(t[i] == s[i]);
                assert(t[i].sent_at > since_ts);
                assert(rest.contains(t[i]));
                let k = choose|k: int| 0 <= k < rest.len() && rest[k] == t[i];
                assert(w[k] == rest[k]);
            } else {
                assert(w[w.len() - 1] == s[i]);
            }
        }
    }
}

/// A sync answer holds exactly the newer members: every member in it joined after
/// `since_ts` and comes from the input, and every input member who joined after
/// `since_ts` is in it.
pub proof fn lemma_members_since_law(s: Seq<MemberRecord>, since_ts: u64)
    ensures
        forall|i: int| 0 <= i < members_since(s, since_ts).len() ==> (#[trigger] members_since(s, since_ts)[i]).joined_at > since_ts
            && s.contains(members_since(s, since_ts)[i]),
        forall|i: int| 0 <= i < s.len() && (#[trigger] s[i]).joined_at > since_ts ==> members_since(s, since_ts).contains(s[i]),
        members_since(s, since_ts).len() <= s.len(),
    decreases s.len(),
{
    if s.len() > 0 {
        let t = s.drop_last();
        lemma_members_since_law(t, since_ts);
        let rest = members_since(t, since_ts);
        let w = members_since(s, since_ts);
        assert forall|i: int| 0 <= i < w.len() implies (#[trigger] w[i]).joined_at > since_ts && s.contains(w[i]) by {
            if i < rest.len() {
                assert(w[i] == rest[i]);
                assert(t.contains(rest[i]));
                let k = choose|k: int| 0 <= k < t.len() && t[k] == rest[i];
                assert(s[k] == t[k]);
            } else {
                assert(w[i] == s.last());
                assert(s[s.len() - 1] == s.last());
            }
        }
        assert forall|i: int| 0 <= i < s.len() && (#[trigger] s[i]).joined_at > since_ts implies w.contains(s[i]) by {
            if i < t.len() {
                assert(t[i] == s[i]);
                assert(t[i].joined_at > since_ts);
                assert(rest.contains(t[i]));
                let k = choose|k: int| 0 <= k < rest.len() && rest[k] == t[i];
                assert(w[k] == rest[k]);
            } else {
                assert(w[w.len() - 1] == s[i]);
            }
        }
    }
}

} // verus!
