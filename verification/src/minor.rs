//! Protection of minors: guardian links and the restrictions on whom a minor may reach.
use vstd::prelude::*;
use crate::entropy::{unix_now, uuid_v4};
use crate::error::CiviumError;
use crate::text::{owned, str_eq};

verus! {

/// Highest trust circle there is.
pub const MAX_CIRCLE: u8 = 2;

/// A guardian responsible for a minor in a network.
#[derive(Debug)]
pub struct GuardianLink {
    pub id: String,
    pub network_cid_short: String,
    pub minor_cid_short: String,
    pub guardian_cid_short: String,
    pub added_by: String,
    pub added_at: u64,
}

impl GuardianLink {
    /// A link with identifier `id`, added at `now`.
    pub fn new_at(
        id: String,
        network_cid_short: String,
        minor_cid_short: String,
        guardian_cid_short: String,
        added_by: String,
        now: u64,
    ) -> (g: GuardianLink)
        ensures
            g == (GuardianLink { id, network_cid_short, minor_cid_short, guardian_cid_short, added_by, added_at: now }),
    {
        GuardianLink { id, network_cid_short, minor_cid_short, guardian_cid_short, added_by, added_at: now }
    }

    /// A link added now under a random UUID.
    pub fn new(network_cid_short: String, minor_cid_short: String, guardian_cid_short: String, added_by: String) -> (g: GuardianLink)
        ensures
            g.network_cid_short == network_cid_short,
            g.minor_cid_short == minor_cid_short,
            g.guardian_cid_short == guardian_cid_short,
            g.added_by == added_by,
    {
        let now = unix_now();
        Self::new_at(uuid_v4(), network_cid_short, minor_cid_short, guardian_cid_short, added_by, now)
    }
}

/// What a minor may reach: members up to a trust circle, and members allowed by name.
#[derive(Debug)]
pub struct MinorRestrictions {
    pub network_cid_short: String,
    pub minor_cid_short: String,
    /// Highest circle the minor may interact with (0 to 2).
    pub max_circle: u8,
    /// Members the minor may reach whatever their circle.
    pub allowed_cid_shorts: Vec<String>,
    pub updated_by: String,
    pub updated_at: u64,
}

/// The minor may interact with `peer` in `circle`: the circle is within the limit, or
/// the peer is explicitly allowed.
pub open spec fn allowed(r: MinorRestrictions, peer: Seq<char>, circle: u8) -> bool {
    circle <= r.max_circle || exists|i: int| 0 <= i < r.allowed_cid_shorts@.len() && #[trigger] r.allowed_cid_shorts@[i]@ == peer
}

impl MinorRestrictions {
    /// Restrictions set at `now`; a circle above 2 is lowered to 2.
    pub fn new_at(
        network_cid_short: String,
        minor_cid_short: String,
        max_circle: u8,
        allowed_cid_shorts: Vec<String>,
        updated_by: String,
        now: u64,
    ) -> (r: MinorRestrictions)
        ensures
            r.network_cid_short == network_cid_short,
            r.minor_cid_short == minor_cid_short,
            r.max_circle == (if max_circle <= MAX_CIRCLE { max_circle } else { MAX_CIRCLE }),
            r.allowed_cid_shorts == allowed_cid_shorts,
            r.updated_by == updated_by,
            r.updated_at == now,
    {
        MinorRestrictions {
            network_cid_short,
            minor_cid_short,
            max_circle: if max_circle <= MAX_CIRCLE {
                max_circle
            } else {
                MAX_CIRCLE
            },
            allowed_cid_shorts,
            updated_by,
            updated_at: now,
        }
    }

    /// Restrictions set now; a circle above 2 is lowered to 2.
    pub fn new(
        network_cid_short: String,
        minor_cid_short: String,
        max_circle: u8,
        allowed_cid_shorts: Vec<String>,
        updated_by: String,
    ) -> (r: MinorRestrictions)
        ensures
            r.network_cid_short == network_cid_short,
            r.minor_cid_short == minor_cid_short,
            r.max_circle == (if max_circle <= MAX_CIRCLE { max_circle } else { MAX_CIRCLE }),
            r.allowed_cid_shorts == allowed_cid_shorts,
            r.updated_by == updated_by,
    {
        Self::new_at(network_cid_short, minor_cid_short, max_circle, allowed_cid_shorts, updated_by, unix_now())
    }

    /// Whether the minor may interact with `peer_cid_short`, a member of `circle`.
    pub fn allows(&self, peer_cid_short: &str, circle: u8) -> (b: bool)
        ensures
            b == allowed(*self, peer_cid_short@, circle),
    {
        if circle <= self.max_circle {
            return true;
        }
        let mut i: usize = 0;
        while i < self.allowed_cid_shorts.len()
            invariant
                i <= self.allowed_cid_shorts.len(),
                forall|j: int| 0 <= j < i ==> #[trigger] self.allowed_cid_shorts@[j]@ != peer_cid_short@,
            decreases self.allowed_cid_shorts.len() - i,
        {
            if str_eq(self.allowed_cid_shorts[i].as_str(), peer_cid_short) {
                return true;
            }
            i = i + 1;
        }
        false
    }
}

/// Some restriction in `s` on `minor` in `network` forbids reaching `peer`, a member of
/// `circle`.
pub open spec fn interaction_blocked(s: Seq<MinorRestrictions>, network: Seq<char>, minor: Seq<char>, peer: Seq<char>, circle: u8) -> bool {
    exists|k: int| 0 <= k < s.len() && (#[trigger] s[k]).network_cid_short@ == network && s[k].minor_cid_short@ == minor
        && !allowed(s[k], peer, circle)
}

/// Checks that `minor` may reach `peer` (a member of `circle`) in `network`: a
/// `Network` error when a restriction on the minor there forbids it; members without
/// restrictions are free.
pub fn check_minor_interaction(
    restrictions: &Vec<MinorRestrictions>,
    network: &str,
    minor: &str,
    peer: &str,
    circle: u8,
) -> (r: Result<(), CiviumError>)
    ensures
        r is Err <==> interaction_blocked(restrictions@, network@, minor@, peer@, circle),
        r matches Err(e) ==> e is Network,
{
    let mut k: usize = 0;
    while k < restrictions.len()
        invariant
            k <= restrictions.len(),
            forall|j: int| 0 <= j < k ==> !((#[trigger] restrictions@[j]).network_cid_short@ == network@
                && restrictions@[j].minor_cid_short@ == minor@ && !allowed(restrictions@[j], peer@, circle)),
        decreases restrictions.len() - k,
    {
        let r = &restrictions[k];
        if str_eq(r.network_cid_short.as_str(), network) && str_eq(r.minor_cid_short.as_str(), minor)
            && !r.allows(peer, circle) {
            return Err(CiviumError::Network(owned("this member is a minor and may not interact with this peer")));
        }
        k = k + 1;
    }
    Ok(())
}

} // verus!
