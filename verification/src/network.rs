//! A Civium network: its identity, its admitted members and its pending join requests.
use vstd::prelude::*;
use crate::encoding::{bs58_text, bs58_value};
use crate::crypto::GroupKey;
use crate::entropy::unix_now;
use crate::error::CiviumError;
use crate::identity::{Cid, CiviumKeypair, cid_full_of, cid_short_of, restored_secret};
use crate::invitation::{Invitation, InvitePayload, invitation_link, invitation_valid_at, issued_invitation};
use crate::member::{MemberRecord, MemberRole, PendingRecord, TrustCircle};
use crate::signing::ed25519_public;
use crate::text::{append_str, owned, str_eq};

verus! {

/// The network-scoped address of a member: `<member_short>@<network_short>`.
#[derive(Debug)]
pub struct NetworkAddress {
    pub member_short: String,
    pub network_short: String,
}

impl NetworkAddress {
    /// `<member_short>@<network_short>`.
    pub fn to_string(&self) -> (s: String)
        ensures
            s@ == self.member_short@ + seq!['@'] + self.network_short@,
    {
        let mut s = self.member_short.clone();
        crate::text::push_char(&mut s, '@');
        append_str(&mut s, self.network_short.as_str());
        s
    }
}

/// Whether a network is a general-purpose group, a directory, or a registry of
/// malicious networks.
#[derive(Debug, Clone, Copy, PartialEq, Eq, Structural)]
pub enum NetworkKind {
    Standard,
    Directory,
    Rrm,
}

impl NetworkKind {
    /// The default kind: `Standard`.
    pub fn default_kind() -> (k: NetworkKind)
        ensures
            k == NetworkKind::Standard,
    {
        NetworkKind::Standard
    }
}

/// Persisted state of a network.
#[derive(Debug)]
pub struct NetworkData {
    pub network_secret_b58: String,
    pub cid_short: String,
    pub cid_full: String,
    pub name: String,
    pub members: Vec<MemberRecord>,
    pub pending: Vec<PendingRecord>,
    /// Group key (Base58); empty for networks created before group keys existed.
    pub group_key_b58: String,
    pub kind: NetworkKind,
    pub ap_enabled: bool,
    pub ap_actor_url: Option<String>,
    pub is_public: bool,
    pub parent_cid: Option<String>,
}

/// Index of the first record among `s` whose short CID is `short`, or -1.
pub open spec fn member_pos(s: Seq<MemberRecord>, short: Seq<char>) -> int
    decreases s.len(),
{
    if s.len() == 0 {
        -1
    } else if s[0].cid_short@ == short {
        0
    } else {
        let p = member_pos(s.drop_first(), short);
        if p == -1 {
            -1
        } else {
            p + 1
        }
    }
}

/// Index of the first pending request among `s` whose short CID is `short`, or -1.
pub open spec fn pending_pos(s: Seq<PendingRecord>, short: Seq<char>) -> int
    decreases s.len(),
{
    if s.len() == 0 {
        -1
    } else if s[0].cid_short@ == short {
        0
    } else {
        let p = pending_pos(s.drop_first(), short);
        if p == -1 {
            -1
        } else {
            p + 1
        }
    }
}

proof fn lemma_member_pos(s: Seq<MemberRecord>, short: Seq<char>)
    ensures
        -1 <= member_pos(s, short) < s.len(),
        member_pos(s, short) >= 0 ==> s[member_pos(s, short)].cid_short@ == short,
        forall|j: int| 0 <= j < s.len() && (member_pos(s, short) == -1 || j < member_pos(s, short))
            ==> #[trigger] s[j].cid_short@ != short,
    decreases s.len(),
{
    if s.len() > 0 && s[0].cid_short@ != short {
        lemma_member_pos(s.drop_first(), short);
        assert forall|j: int|
            0 <= j < s.len() && (member_pos(s, short) == -1 || j < member_pos(s, short))
                implies #[trigger] s[j].cid_short@ != short by {
            if j > 0 {
                assert(s[j] == s.drop_first()[j - 1]);
            }
        }
    }
}

proof fn lemma_pending_pos(s: Seq<PendingRecord>, short: Seq<char>)
    ensures
        -1 <= pending_pos(s, short) < s.len(),
        pending_pos(s, short) >= 0 ==> s[pending_pos(s, short)].cid_short@ == short,
        forall|j: int| 0 <= j < s.len() && (pending_pos(s, short) == -1 || j < pending_pos(s, short))
            ==> #[trigger] s[j].cid_short@ != short,
    decreases s.len(),
{
    if s.len() > 0 && s[0].cid_short@ != short {
        lemma_pending_pos(s.drop_first(), short);
        assert forall|j: int|
            0 <= j < s.len() && (pending_pos(s, short) == -1 || j < pending_pos(s, short))
                implies #[trigger] s[j].cid_short@ != short by {
            if j > 0 {
                assert(s[j] == s.drop_first()[j - 1]);
            }
        }
    }
}

/// Some member has the full CID `full`.
pub open spec fn has_member_full(s: Seq<MemberRecord>, full: Seq<char>) -> bool {
    exists|i: int| 0 <= i < s.len() && #[trigger] s[i].cid_full@ == full
}

/// Some pending request has the full CID `full`.
pub open spec fn has_pending_full(s: Seq<PendingRecord>, full: Seq<char>) -> bool {
    exists|i: int| 0 <= i < s.len() && #[trigger] s[i].cid_full@ == full
}

/// Some pending request was made with the invitation whose nonce is `nonce`.
pub open spec fn has_pending_nonce(s: Seq<PendingRecord>, nonce: Seq<char>) -> bool {
    exists|i: int| 0 <= i < s.len() && #[trigger] s[i].invite_nonce_b58@ == nonce
}

/// Some member uses the display name `name`.
pub open spec fn has_member_name(s: Seq<MemberRecord>, name: Seq<char>) -> bool {
    exists|i: int| 0 <= i < s.len() && #[trigger] s[i].display_name@ == name
}

/// No two members share a display name.
pub open spec fn names_distinct(s: Seq<MemberRecord>) -> bool {
    forall|i: int, j: int|
        0 <= i < s.len() && 0 <= j < s.len() && i != j ==> #[trigger] s[i].display_name@
            != #[trigger] s[j].display_name@
}

/// No two pending requests share a full CID.
pub open spec fn pending_distinct(s: Seq<PendingRecord>) -> bool {
    forall|i: int, j: int|
        0 <= i < s.len() && 0 <= j < s.len() && i != j ==> #[trigger] s[i].cid_full@
            != #[trigger] s[j].cid_full@
}

/// Index of the first member with short CID `short`.
pub fn find_member(members: &Vec<MemberRecord>, short: &str) -> (r: Option<usize>)
    ensures
        match r {
            Some(i) => i as int == member_pos(members@, short@),
            None => member_pos(members@, short@) == -1,
        },
        -1 <= member_pos(members@, short@) < members@.len(),
        member_pos(members@, short@) >= 0 ==> members@[member_pos(members@, short@)].cid_short@
            == short@,
{
    proof {
        lemma_member_pos(members@, short@);
    }
    let mut i: usize = 0;
    while i < members.len()
        invariant
            i <= members.len(),
            -1 <= member_pos(members@, short@) < members@.len(),
            member_pos(members@, short@) >= 0 ==> members@[member_pos(members@, short@)].cid_short@
                == short@,
            forall|j: int| 0 <= j < i ==> #[trigger] members@[j].cid_short@ != short@,
            forall|j: int|
                0 <= j < members@.len() && (member_pos(members@, short@) == -1 || j < member_pos(
                    members@,
                    short@,
                )) ==> #[trigger] members@[j].cid_short@ != short@,
        decreases members.len() - i,
    {
        if str_eq(members[i].cid_short.as_str(), short) {
            return Some(i);
        }
        i = i + 1;
    }
    None
}

/// Index of the first pending request with short CID `short`.
pub fn find_pending(pending: &Vec<PendingRecord>, short: &str) -> (r: Option<usize>)
    ensures
        match r {
            Some(i) => i as int == pending_pos(pending@, short@),
            None => pending_pos(pending@, short@) == -1,
        },
        -1 <= pending_pos(pending@, short@) < pending@.len(),
        pending_pos(pending@, short@) >= 0 ==> pending@[pending_pos(pending@, short@)].cid_short@
            == short@,
{
    proof {
        lemma_pending_pos(pending@, short@);
    }
    let mut i: usize = 0;
    while i < pending.len()
        invariant
            i <= pending.len(),
            -1 <= pending_pos(pending@, short@) < pending@.len(),
            pending_pos(pending@, short@) >= 0 ==> pending@[pending_pos(pending@, short@)].cid_short@
                == short@,
            forall|j: int| 0 <= j < i ==> #[trigger] pending@[j].cid_short@ != short@,
            forall|j: int|
                0 <= j < pending@.len() && (pending_pos(pending@, short@) == -1 || j < pending_pos(
                    pending@,
                    short@,
                )) ==> #[trigger] pending@[j].cid_short@ != short@,
        decreases pending.len() - i,
    {
        if str_eq(pending[i].cid_short.as_str(), short) {
            return Some(i);
        }
        i = i + 1;
    }
    None
}

/// Whether some member has the full CID `full`.
pub fn member_with_full(members: &Vec<MemberRecord>, full: &str) -> (b: bool)
    ensures
        b == has_member_full(members@, full@),
{
    let mut i: usize = 0;
    while i < members.len()
        invariant
            i <= members.len(),
            forall|j: int| 0 <= j < i ==> #[trigger] members@[j].cid_full@ != full@,
        decreases members.len() - i,
    {
        if str_eq(members[i].cid_full.as_str(), full) {
            return true;
        }
        i = i + 1;
    }
    false
}

/// Whether some pending request has the full CID `full`.
pub fn pending_with_full(pending: &Vec<PendingRecord>, full: &str) -> (b: bool)
    ensures
        b == has_pending_full(pending@, full@),
{
    let mut i: usize = 0;
    while i < pending.len()
        invariant
            i <= pending.len(),
            forall|j: int| 0 <= j < i ==> #[trigger] pending@[j].cid_full@ != full@,
        decreases pending.len() - i,
    {
        if str_eq(pending[i].cid_full.as_str(), full) {
            return true;
        }
        i = i + 1;
    }
    false
}

/// Whether some pending request was made with the invitation whose nonce is `nonce`.
pub fn pending_with_nonce(pending: &Vec<PendingRecord>, nonce: &str) -> (b: bool)
    ensures
        b == has_pending_nonce(pending@, nonce@),
{
    let mut i: usize = 0;
    while i < pending.len()
        invariant
            i <= pending.len(),
            forall|j: int| 0 <= j < i ==> #[trigger] pending@[j].invite_nonce_b58@ != nonce@,
        decreases pending.len() - i,
    {
        if str_eq(pending[i].invite_nonce_b58.as_str(), nonce) {
            return true;
        }
        i = i + 1;
    }
    false
}

/// Whether some member uses the display name `name`.
pub fn member_with_name(members: &Vec<MemberRecord>, name: &str) -> (b: bool)
    ensures
        b == has_member_name(members@, name@),
{
    let mut i: usize = 0;
    while i < members.len()
        invariant
            i <= members.len(),
            forall|j: int| 0 <= j < i ==> #[trigger] members@[j].display_name@ != name@,
        decreases members.len() - i,
    {
        if str_eq(members[i].display_name.as_str(), name) {
            return true;
        }
        i = i + 1;
    }
    false
}

/// The fields of `b` other than the member and pending lists equal those of `a`.
pub open spec fn same_identity(a: NetworkData, b: NetworkData) -> bool {
    &&& a.network_secret_b58 == b.network_secret_b58
    &&& a.cid_short == b.cid_short
    &&& a.cid_full == b.cid_full
    &&& a.name == b.name
    &&& a.group_key_b58 == b.group_key_b58
    &&& a.kind == b.kind
    &&& a.ap_enabled == b.ap_enabled
    &&& a.ap_actor_url == b.ap_actor_url
    &&& a.is_public == b.is_public
    &&& a.parent_cid == b.parent_cid
}

/// A join request by `full` under `display_name`, with the invitation `invite`, passes
/// the network's checks: the invitation was issued by this network and no pending request
/// used it already, the member is neither pending nor a member, and the name is free.
pub open spec fn join_accepted(d: NetworkData, full: Seq<char>, display_name: Seq<char>, invite: InvitePayload) -> bool {
    &&& invite.network_cid_full@ == d.cid_full@
    &&& !has_pending_nonce(d.pending@, invite.nonce_b58@)
    &&& !has_pending_full(d.pending@, full)
    &&& !has_member_full(d.members@, full)
    &&& !has_member_name(d.members@, display_name)
}

/// The member record that admitting `p` with `circle` and `role` at time `t` creates.
pub open spec fn admitted_record(p: PendingRecord, circle: TrustCircle, role: MemberRole, t: u64) -> MemberRecord {
    MemberRecord {
        cid_short: p.cid_short,
        cid_full: p.cid_full,
        display_name: p.display_name,
        circle,
        role,
        joined_at: t,
        is_minor: false,
        pub_key_b58: p.pub_key_b58,
    }
}

/// `existing` followed by the members of `incoming` whose full CID is not yet present
/// (checked in order, against the members already absorbed too).
pub open spec fn absorb(existing: Seq<MemberRecord>, incoming: Seq<MemberRecord>) -> Seq<MemberRecord>
    decreases incoming.len(),
{
    if incoming.len() == 0 {
        existing
    } else {
        let r = absorb(existing, incoming.drop_last());
        if has_member_full(r, incoming.last().cid_full@) {
            r
        } else {
            r.push(incoming.last())
        }
    }
}

/// No two members share a full CID.
pub open spec fn fulls_distinct(s: Seq<MemberRecord>) -> bool {
    forall|i: int, j: int|
        0 <= i < s.len() && 0 <= j < s.len() && i != j ==> #[trigger] s[i].cid_full@ != #[trigger] s[j].cid_full@
}

impl NetworkData {
    /// Adds the synchronised members whose full CID the network does not know yet.
    pub fn merge_members(&mut self, members: Vec<MemberRecord>)
        ensures
            same_identity(*old(self), *final(self)),
            final(self).pending@ == old(self).pending@,
            final(self).members@ == absorb(old(self).members@, members@),
            fulls_distinct(old(self).members@) ==> fulls_distinct(final(self).members@),
    {
        let ghost inc = members@;
        let ghost start = self.members@;
        let mut members = members;
        let ghost mut i: int = 0;
        assert(inc.subrange(0, 0) =~= Seq::<MemberRecord>::empty());
        assert(inc.subrange(0, inc.len() as int) =~= inc);
        while members.len() > 0
            invariant
                0 <= i <= inc.len(),
                members@ == inc.subrange(i, inc.len() as int),
                self.members@ == absorb(start, inc.subrange(0, i)),
                same_identity(*old(self), *self),
                self.pending@ == old(self).pending@,
                fulls_distinct(start) ==> fulls_distinct(self.members@),
            decreases members.len(),
        {
            let m = members.remove(0);
            proof {
                let sub = inc.subrange(0, i + 1);
                assert(sub.drop_last() =~= inc.subrange(0, i));
                assert(sub.last() == m);
                assert(members@ =~= inc.subrange(i + 1, inc.len() as int));
            }
            if !member_with_full(&self.members, m.cid_full.as_str()) {
                let ghost before = self.members@;
                self.members.push(m);
                proof {
                    let s = self.members@;
                    assert forall|a: int, b: int|
                        0 <= a < s.len() && 0 <= b < s.len() && a != b && fulls_distinct(before)
                            implies #[trigger] s[a].cid_full@ != #[trigger] s[b].cid_full@ by {
                        if a == s.len() - 1 {
                            assert(before[b] == s[b]);
                        } else if b == s.len() - 1 {
                            assert(before[a] == s[a]);
                        }
                    }
                }
            }
            proof {
                i = i + 1;
            }
        }
        assert(inc.subrange(0, i) =~= inc);
    }

    /// Records a pending join request from `member_cid` at time `now`, given an
    /// invitation that is valid at `now`. Refused (with a `Network` error) when the
    /// invitation was issued by another network or already used by a pending request
    /// (same nonce), when the member already has a pending
    /// request or is already a member (by full CID), or when the display name is already
    /// used by a member.
    pub fn submit_join_request_checked(
        &mut self,
        member_cid: &Cid,
        display_name: String,
        invite: &Invitation,
        pub_key_b58: Option<String>,
        now: u64,
    ) -> (r: Result<(), CiviumError>)
        ensures
            same_identity(*old(self), *final(self)),
            final(self).members@ == old(self).members@,
            pending_distinct(old(self).pending@) ==> pending_distinct(final(self).pending@),
            r is Ok <==> join_accepted(*old(self), member_cid.full_view(), display_name@, invite.payload),
            r matches Err(e) ==> e is Network,
            r is Ok ==> final(self).pending@.len() == old(self).pending@.len() + 1
                && final(self).pending@.drop_last() == old(self).pending@
                && final(self).pending@.last().cid_short@ == member_cid.short_view()
                && final(self).pending@.last().cid_full@ == member_cid.full_view()
                && final(self).pending@.last().display_name == display_name
                && final(self).pending@.last().requested_at == now
                && final(self).pending@.last().invite_nonce_b58@ == invite.payload.nonce_b58@
                && final(self).pending@.last().pub_key_b58 == pub_key_b58,
            r is Err ==> final(self).pending@ == old(self).pending@,
    {
        if !str_eq(invite.network_cid_full(), self.cid_full.as_str()) {
            return Err(CiviumError::Network(owned("invitation is for a different network")));
        }
        if pending_with_nonce(&self.pending, invite.nonce_b58()) {
            return Err(CiviumError::Network(owned("this invitation has already been used")));
        }
        if pending_with_full(&self.pending, member_cid.full()) {
            return Err(CiviumError::Network(owned("a pending request already exists for this member")));
        }
        if member_with_full(&self.members, member_cid.full()) {
            return Err(CiviumError::Network(owned("this member is already a member")));
        }
        if member_with_name(&self.members, display_name.as_str()) {
            return Err(CiviumError::Network(owned("display name is already taken in this network")));
        }
        let rec = PendingRecord {
            cid_short: owned(member_cid.short()),
            cid_full: owned(member_cid.full()),
            display_name,
            requested_at: now,
            invite_nonce_b58: owned(invite.nonce_b58()),
            pub_key_b58,
        };
        self.pending.push(rec);
        proof {
            let p = self.pending@;
            assert forall|a: int, b: int|
                0 <= a < p.len() && 0 <= b < p.len() && a != b && pending_distinct(old(self).pending@)
                    implies #[trigger] p[a].cid_full@ != #[trigger] p[b].cid_full@ by {
                if a == p.len() - 1 {
                    assert(old(self).pending@[b] == p[b]);
                } else if b == p.len() - 1 {
                    assert(old(self).pending@[a] == p[a]);
                }
            }
        }
        Ok(())
    }

    /// Records a pending join request at time `now`: the invitation must be valid at
    /// `now` (else an `Invitation` error), then the checks of
    /// `submit_join_request_checked` apply.
    pub fn submit_join_request_at(
        &mut self,
        member_cid: &Cid,
        display_name: String,
        invite: &Invitation,
        pub_key_b58: Option<String>,
        now: u64,
    ) -> (r: Result<(), CiviumError>)
        ensures
            same_identity(*old(self), *final(self)),
            final(self).members@ == old(self).members@,
            pending_distinct(old(self).pending@) ==> pending_distinct(final(self).pending@),
            !invitation_valid_at(*invite, now) ==> (r matches Err(e) && e is Invitation),
            invitation_valid_at(*invite, now) ==> (r is Ok <==> join_accepted(
                *old(self),
                member_cid.full_view(),
                display_name@,
                invite.payload,
            )),
            invitation_valid_at(*invite, now) ==> (r matches Err(e) ==> e is Network),
            r is Ok ==> final(self).pending@.len() == old(self).pending@.len() + 1
                && final(self).pending@.drop_last() == old(self).pending@
                && final(self).pending@.last().cid_short@ == member_cid.short_view()
                && final(self).pending@.last().cid_full@ == member_cid.full_view()
                && final(self).pending@.last().display_name == display_name
                && final(self).pending@.last().requested_at == now
                && final(self).pending@.last().invite_nonce_b58@ == invite.payload.nonce_b58@
                && final(self).pending@.last().pub_key_b58 == pub_key_b58,
            r is Err ==> final(self).pending@ == old(self).pending@,
    {
        match invite.verify_at(now) {
            Err(e) => Err(e),
            Ok(()) => self.submit_join_request_checked(member_cid, display_name, invite, pub_key_b58, now),
        }
    }

    /// Admits the first pending request with short CID `member_cid_short`, at time `now`.
    ///
    /// The request is taken out of the pending list first; if its display name is
    /// already used by a member the admission is refused (and the request stays removed).
    pub fn admit_at(
        &mut self,
        member_cid_short: &str,
        circle: TrustCircle,
        role: MemberRole,
        now: u64,
    ) -> (r: Result<MemberRecord, CiviumError>)
        ensures
            same_identity(*old(self), *final(self)),
            names_distinct(old(self).members@) ==> names_distinct(final(self).members@),
            pending_distinct(old(self).pending@) ==> pending_distinct(final(self).pending@),
            ({
                let i = pending_pos(old(self).pending@, member_cid_short@);
                if i == -1 {
                    &&& r matches Err(e) && e is Network
                    &&& final(self).pending@ == old(self).pending@
                    &&& final(self).members@ == old(self).members@
                } else {
                    let p = old(self).pending@[i];
                    &&& final(self).pending@ == old(self).pending@.remove(i)
                    &&& if has_member_name(old(self).members@, p.display_name@) {
                        &&& r matches Err(e) && e is Network
                        &&& final(self).members@ == old(self).members@
                    } else {
                        &&& r == Ok::<MemberRecord, CiviumError>(
                            admitted_record(p, circle, role, now),
                        )
                        &&& final(self).members@ == old(self).members@.push(
                            admitted_record(p, circle, role, now),
                        )
                    }
                }
            }),
    {
        match find_pending(&self.pending, member_cid_short) {
            None => Err(CiviumError::Network(owned("no pending request for this member"))),
            Some(idx) => {
                let p = self.pending.remove(idx);
                if member_with_name(&self.members, p.display_name.as_str()) {
                    Err(CiviumError::Network(owned("display name is already taken — ask the member to choose another")))
                } else {
                    let record = MemberRecord {
                        cid_short: p.cid_short,
                        cid_full: p.cid_full,
                        display_name: p.display_name,
                        circle,
                        role,
                        joined_at: now,
                        is_minor: false,
                        pub_key_b58: p.pub_key_b58,
                    };
                    let copy = record.copy();
                    self.members.push(record);
                    proof {
                        let m = self.members@;
                        assert forall|a: int, b: int|
                            0 <= a < m.len() && 0 <= b < m.len() && a != b && names_distinct(old(self).members@)
                                implies #[trigger] m[a].display_name@ != #[trigger] m[b].display_name@ by {
                            if a == m.len() - 1 {
                                assert(old(self).members@[b] == m[b]);
                            } else if b == m.len() - 1 {
                                assert(old(self).members@[a] == m[a]);
                            }
                        }
                    }
                    Ok(copy)
                }
            },
        }
    }

    /// Rejects (removes) the first pending request with short CID `member_cid_short`.
    pub fn reject(&mut self, member_cid_short: &str) -> (r: Result<(), CiviumError>)
        ensures
            same_identity(*old(self), *final(self)),
            final(self).members@ == old(self).members@,
            ({
                let i = pending_pos(old(self).pending@, member_cid_short@);
                if i == -1 {
                    r matches Err(e) && e is Network && final(self).pending@ == old(self).pending@
                } else {
                    r is Ok && final(self).pending@ == old(self).pending@.remove(i)
                }
            }),
    {
        match find_pending(&self.pending, member_cid_short) {
            None => Err(CiviumError::Network(owned("no pending request for this member"))),
            Some(idx) => {
                self.pending.remove(idx);
                Ok(())
            },
        }
    }

    /// Changes the role of the first member with short CID `member_cid_short`.
    pub fn set_member_role(&mut self, member_cid_short: &str, role: MemberRole) -> (r: Result<(), CiviumError>)
        ensures
            same_identity(*old(self), *final(self)),
            final(self).pending@ == old(self).pending@,
            ({
                let i = member_pos(old(self).members@, member_cid_short@);
                if i == -1 {
                    r matches Err(e) && e is Network && final(self).members@ == old(self).members@
                } else {
                    r is Ok && final(self).members@ == old(self).members@.update(
                        i,
                        MemberRecord { role, ..old(self).members@[i] },
                    )
                }
            }),
    {
        match find_member(&self.members, member_cid_short) {
            None => Err(CiviumError::Network(owned("member not found"))),
            Some(idx) => {
                let mut m = self.members.remove(idx);
                m.role = role;
                self.members.insert(idx, m);
                Ok(())
            },
        }
    }

    /// Sets or clears the minor flag of the first member with short CID `member_cid_short`.
    pub fn set_member_minor(&mut self, member_cid_short: &str, is_minor: bool) -> (r: Result<(), CiviumError>)
        ensures
            same_identity(*old(self), *final(self)),
            final(self).pending@ == old(self).pending@,
            ({
                let i = member_pos(old(self).members@, member_cid_short@);
                if i == -1 {
                    r matches Err(e) && e is Network && final(self).members@ == old(self).members@
                } else {
                    r is Ok && final(self).members@ == old(self).members@.update(
                        i,
                        MemberRecord { is_minor, ..old(self).members@[i] },
                    )
                }
            }),
    {
        match find_member(&self.members, member_cid_short) {
            None => Err(CiviumError::Network(owned("member not found"))),
            Some(idx) => {
                let mut m = self.members.remove(idx);
                m.is_minor = is_minor;
                self.members.insert(idx, m);
                Ok(())
            },
        }
    }

    /// Removes the first member with short CID `member_cid_short`.
    pub fn remove_member(&mut self, member_cid_short: &str) -> (r: Result<(), CiviumError>)
        ensures
            same_identity(*old(self), *final(self)),
            final(self).pending@ == old(self).pending@,
            ({
                let i = member_pos(old(self).members@, member_cid_short@);
                if i == -1 {
                    r matches Err(e) && e is Network && final(self).members@ == old(self).members@
                } else {
                    r is Ok && final(self).members@ == old(self).members@.remove(i)
                }
            }),
    {
        match find_member(&self.members, member_cid_short) {
            None => Err(CiviumError::Network(owned("member not found"))),
            Some(idx) => {
                self.members.remove(idx);
                Ok(())
            },
        }
    }
}

/// A Civium network: a sovereign group with its own identity, members and rules. The
/// network's keypair (held by its founding admin) signs its invitations.
pub struct Network {
    pub keypair: CiviumKeypair,
    pub data: NetworkData,
}

impl Network {
    /// The network's keypair.
    pub open spec fn keypair_view(&self) -> CiviumKeypair {
        self.keypair
    }

    /// Creates a network at time `now`: a fresh keypair and group key, with the founding
    /// admin as its only member (circle Confiance, role Admin).
    pub fn create_at(
        name: String,
        admin_cid: &Cid,
        admin_display_name: String,
        admin_pub_key_b58: Option<String>,
        is_public: bool,
        parent_cid: Option<String>,
        now: u64,
    ) -> (r: Result<Network, CiviumError>)
        ensures
            r matches Ok(n) && {
                &&& n.data.name == name
                &&& n.data.cid_full@ == cid_full_of(n.keypair_view().public_view())
                &&& n.data.cid_short@ == cid_short_of(n.keypair_view().public_view())
                &&& n.data.network_secret_b58@ == bs58_text(n.keypair_view().secret_view())
                &&& restored_secret(n.data.network_secret_b58@) == Some(n.keypair_view().secret_view())
                &&& n.data.members@.len() == 1
                &&& n.data.members@[0].cid_short@ == admin_cid.short_view()
                &&& n.data.members@[0].cid_full@ == admin_cid.full_view()
                &&& n.data.members@[0].display_name == admin_display_name
                &&& n.data.members@[0].circle == TrustCircle::Confiance
                &&& n.data.members@[0].role == MemberRole::Admin
                &&& n.data.members@[0].joined_at == now
                &&& !n.data.members@[0].is_minor
                &&& n.data.members@[0].pub_key_b58 == admin_pub_key_b58
                &&& n.data.pending@.len() == 0
                &&& bs58_value(n.data.group_key_b58@) matches Some(k) && k.len() == 32
                &&& n.data.kind == NetworkKind::Standard
                &&& !n.data.ap_enabled
                &&& n.data.ap_actor_url is None
                &&& n.data.is_public == is_public
                &&& n.data.parent_cid == parent_cid
            },
    {
        let keypair = match CiviumKeypair::generate() {
            Ok(k) => k,
            Err(e) => return Err(e),
        };
        let cid = keypair.cid();
        let group_key = GroupKey::generate();
        let admin = MemberRecord {
            cid_short: owned(admin_cid.short()),
            cid_full: owned(admin_cid.full()),
            display_name: admin_display_name,
            circle: TrustCircle::Confiance,
            role: MemberRole::Admin,
            joined_at: now,
            is_minor: false,
            pub_key_b58: admin_pub_key_b58,
        };
        let mut members: Vec<MemberRecord> = Vec::new();
        members.push(admin);
        let data = NetworkData {
            network_secret_b58: keypair.secret_b58(),
            cid_short: owned(cid.short()),
            cid_full: owned(cid.full()),
            name,
            members,
            pending: Vec::new(),
            group_key_b58: group_key.to_b58(),
            kind: NetworkKind::Standard,
            ap_enabled: false,
            ap_actor_url: None,
            is_public,
            parent_cid,
        };
        Ok(Network { keypair, data })
    }

    /// Creates a network now (see `create_at`).
    pub fn create(
        name: String,
        admin_cid: &Cid,
        admin_display_name: String,
        admin_pub_key_b58: Option<String>,
        is_public: bool,
        parent_cid: Option<String>,
    ) -> (r: Result<Network, CiviumError>)
        ensures
            r matches Ok(n) && {
                &&& n.data.name == name
                &&& n.data.cid_full@ == cid_full_of(n.keypair_view().public_view())
                &&& n.data.cid_short@ == cid_short_of(n.keypair_view().public_view())
                &&& restored_secret(n.data.network_secret_b58@) == Some(n.keypair_view().secret_view())
                &&& n.data.members@.len() == 1
                &&& n.data.members@[0].cid_full@ == admin_cid.full_view()
                &&& n.data.members@[0].role == MemberRole::Admin
                &&& n.data.pending@.len() == 0
                &&& n.data.is_public == is_public
                &&& n.data.parent_cid == parent_cid
            },
    {
        let now = unix_now();
        Self::create_at(name, admin_cid, admin_display_name, admin_pub_key_b58, is_public, parent_cid, now)
    }

    /// Restores a network from its persisted data; an `Identity` error when the stored
    /// secret key does not decode to 32 bytes.
    pub fn from_data(data: NetworkData) -> (r: Result<Network, CiviumError>)
        ensures
            r is Ok <==> restored_secret(data.network_secret_b58@) is Some,
            r matches Ok(n) ==> n.data == data && Some(n.keypair_view().secret_view())
                == restored_secret(data.network_secret_b58@),
            r matches Err(e) ==> e is Identity,
    {
        match CiviumKeypair::from_secret_b58(data.network_secret_b58.as_str()) {
            Err(e) => Err(e),
            Ok(keypair) => Ok(Network { keypair, data }),
        }
    }

    /// Short CID of the network.
    pub fn cid_short(&self) -> (s: &str)
        ensures
            s@ == self.data.cid_short@,
    {
        self.data.cid_short.as_str()
    }

    /// Full CID of the network.
    pub fn cid_full(&self) -> (s: &str)
        ensures
            s@ == self.data.cid_full@,
    {
        self.data.cid_full.as_str()
    }

    /// Name of the network.
    pub fn name(&self) -> (s: &str)
        ensures
            s@ == self.data.name@,
    {
        self.data.name.as_str()
    }

    /// The network's keypair.
    pub fn keypair(&self) -> (k: &CiviumKeypair)
        ensures
            *k == self.keypair_view(),
    {
        &self.keypair
    }

    /// Base58 text of the network's public key.
    pub fn pubkey_b58(&self) -> (s: String)
        ensures
            s@ == bs58_text(self.keypair_view().public_view()),
            bs58_value(s@) == Some(self.keypair_view().public_view()),
    {
        self.keypair.pub_key_b58()
    }

    /// A signed invitation link, valid for `expires_hours` hours (0: no expiry).
    /// The link is that of an invitation issued by this network's keypair, under its
    /// name, for the inviter; it cannot fail without expiry, and fails for an expiry
    /// past the largest timestamp.
    pub fn create_invitation(&self, inviter_cid: &Cid, expires_hours: u64) -> (r: Result<String, CiviumError>)
        ensures
            r matches Ok(link) ==> exists|inv: Invitation| {
                &&& link@ == #[trigger] invitation_link(inv)
                &&& issued_invitation(
                    inv,
                    self.keypair_view().public_view(),
                    self.data.name@,
                    inviter_cid.short_view(),
                    expires_hours,
                )
            },
            r matches Err(e) ==> e is Invitation,
            expires_hours == 0 ==> r is Ok,
            expires_hours > u64::MAX / 3600 ==> r is Err,
    {
        match Invitation::create(&self.keypair, self.data.name.as_str(), inviter_cid, expires_hours) {
            Err(e) => Err(e),
            Ok(inv) => {
                let link = inv.to_link();
                assert(link matches Ok(l) && l@ == invitation_link(inv));
                link
            },
        }
    }

    /// Records a pending join request now (see `NetworkData::submit_join_request_at`).
    pub fn submit_join_request(
        &mut self,
        member_cid: &Cid,
        display_name: String,
        invite: &Invitation,
        pub_key_b58: Option<String>,
    ) -> (r: Result<(), CiviumError>)
        ensures
            final(self).keypair_view() == old(self).keypair_view(),
            same_identity(old(self).data, final(self).data),
            final(self).data.members@ == old(self).data.members@,
            pending_distinct(old(self).data.pending@) ==> pending_distinct(final(self).data.pending@),
            r is Ok ==> invitation_valid_at(*invite, final(self).data.pending@.last().requested_at)
                && join_accepted(old(self).data, member_cid.full_view(), display_name@, invite.payload)
                && final(self).data.pending@.drop_last() == old(self).data.pending@
                && final(self).data.pending@.last().cid_full@ == member_cid.full_view()
                && final(self).data.pending@.last().display_name == display_name,
            !join_accepted(old(self).data, member_cid.full_view(), display_name@, invite.payload) ==> r is Err,
            r is Err ==> final(self).data.pending@ == old(self).data.pending@,
            exists|t: u64| {
                &&& (r is Ok <==> #[trigger] invitation_valid_at(*invite, t) && join_accepted(
                    old(self).data,
                    member_cid.full_view(),
                    display_name@,
                    invite.payload,
                ))
                &&& (r matches Err(e) ==> (invitation_valid_at(*invite, t) ==> e is Network))
                &&& (r is Ok ==> final(self).data.pending@.last().requested_at == t)
            },
            invite.payload.expires_at == 0 ==> (r is Ok <==> invitation_valid_at(*invite, 0) && join_accepted(
                old(self).data,
                member_cid.full_view(),
                display_name@,
                invite.payload,
            )),
            r matches Err(e) ==> e is Invitation || e is Network,
            r is Ok ==> final(self).data.pending@.last().cid_short@ == member_cid.short_view()
                && final(self).data.pending@.last().invite_nonce_b58@ == invite.payload.nonce_b58@
                && final(self).data.pending@.last().pub_key_b58 == pub_key_b58,
    {
        let now = unix_now();
        self.data.submit_join_request_at(member_cid, display_name, invite, pub_key_b58, now)
    }

    /// Admits a pending member now, with the circle and role that the admin chose (see
    /// `NetworkData::admit_at`).
    pub fn admit_member(&mut self, member_cid_short: &str, circle: TrustCircle, role: MemberRole) -> (r: Result<MemberRecord, CiviumError>)
        ensures
            final(self).keypair_view() == old(self).keypair_view(),
            same_identity(old(self).data, final(self).data),
            names_distinct(old(self).data.members@) ==> names_distinct(final(self).data.members@),
            ({
                let i = pending_pos(old(self).data.pending@, member_cid_short@);
                if i == -1 {
                    &&& r matches Err(e) && e is Network
                    &&& final(self).data.pending@ == old(self).data.pending@
                    &&& final(self).data.members@ == old(self).data.members@
                } else {
                    let p = old(self).data.pending@[i];
                    &&& final(self).data.pending@ == old(self).data.pending@.remove(i)
                    &&& if has_member_name(old(self).data.members@, p.display_name@) {
                        &&& r matches Err(e) && e is Network
                        &&& final(self).data.members@ == old(self).data.members@
                    } else {
                        &&& r matches Ok(m) && m == admitted_record(p, circle, role, m.joined_at)
                        &&& final(self).data.members@ == old(self).data.members@.push(
                            admitted_record(p, circle, role, r->Ok_0.joined_at),
                        )
                    }
                }
            }),
    {
        let now = unix_now();
        self.data.admit_at(member_cid_short, circle, role, now)
    }

    /// Changes the role of an admitted member (see `NetworkData::set_member_role`).
    pub fn set_member_role(&mut self, member_cid_short: &str, role: MemberRole) -> (r: Result<(), CiviumError>)
        ensures
            final(self).keypair_view() == old(self).keypair_view(),
            same_identity(old(self).data, final(self).data),
            final(self).data.pending@ == old(self).data.pending@,
            ({
                let i = member_pos(old(self).data.members@, member_cid_short@);
                if i == -1 {
                    r matches Err(e) && e is Network && final(self).data.members@ == old(self).data.members@
                } else {
                    r is Ok && final(self).data.members@ == old(self).data.members@.update(
                        i,
                        MemberRecord { role, ..old(self).data.members@[i] },
                    )
                }
            }),
    {
        self.data.set_member_role(member_cid_short, role)
    }

    /// Removes an admitted member (see `NetworkData::remove_member`).
    pub fn remove_member(&mut self, member_cid_short: &str) -> (r: Result<(), CiviumError>)
        ensures
            final(self).keypair_view() == old(self).keypair_view(),
            same_identity(old(self).data, final(self).data),
            final(self).data.pending@ == old(self).data.pending@,
            ({
                let i = member_pos(old(self).data.members@, member_cid_short@);
                if i == -1 {
                    r matches Err(e) && e is Network && final(self).data.members@ == old(self).data.members@
                } else {
                    r is Ok && final(self).data.members@ == old(self).data.members@.remove(i)
                }
            }),
    {
        self.data.remove_member(member_cid_short)
    }

    /// Rejects a pending join request (see `NetworkData::reject`).
    pub fn reject(&mut self, member_cid_short: &str) -> (r: Result<(), CiviumError>)
        ensures
            final(self).keypair_view() == old(self).keypair_view(),
            same_identity(old(self).data, final(self).data),
            final(self).data.members@ == old(self).data.members@,
            ({
                let i = pending_pos(old(self).data.pending@, member_cid_short@);
                if i == -1 {
                    r matches Err(e) && e is Network && final(self).data.pending@ == old(self).data.pending@
                } else {
                    r is Ok && final(self).data.pending@ == old(self).data.pending@.remove(i)
                }
            }),
    {
        self.data.reject(member_cid_short)
    }

    /// Answers a join request received from a peer at time `now`: the invitation must be
    /// valid, the request passes the checks of `submit_join_request_at`, and the member is
    /// then admitted in circle Connaissance with role Member.
    pub fn accept_join_at(&mut self, member_cid: &Cid, display_name: String, invite: &Invitation, now: u64) -> (r: Result<MemberRecord, CiviumError>)
        ensures
            final(self).keypair_view() == old(self).keypair_view(),
            same_identity(old(self).data, final(self).data),
            names_distinct(old(self).data.members@) ==> names_distinct(final(self).data.members@),
            !invitation_valid_at(*invite, now) ==> r is Err,
            !join_accepted(old(self).data, member_cid.full_view(), display_name@, invite.payload) ==> r is Err,
            r matches Ok(m) ==> m.circle == TrustCircle::Connaissance && m.role == MemberRole::Member && m.joined_at == now
                && final(self).data.members@ == old(self).data.members@.push(m),
            !(invitation_valid_at(*invite, now) && join_accepted(
                old(self).data,
                member_cid.full_view(),
                display_name@,
                invite.payload,
            )) ==> final(self).data.members@ == old(self).data.members@ && final(self).data.pending@
                == old(self).data.pending@,
            invitation_valid_at(*invite, now) && join_accepted(
                old(self).data,
                member_cid.full_view(),
                display_name@,
                invite.payload,
            ) ==> {
                let i = pending_pos(old(self).data.pending@, member_cid.short_view());
                if i == -1 {
                    &&& r matches Ok(m) && m.cid_short@ == member_cid.short_view()
                        && m.cid_full@ == member_cid.full_view() && m.display_name == display_name
                        && !m.is_minor && m.pub_key_b58 is None
                    &&& final(self).data.pending@ == old(self).data.pending@
                } else {
                    // An earlier request with the same short CID is admitted in its place;
                    // the new request stays pending.
                    let p = old(self).data.pending@[i];
                    &&& final(self).data.pending@.drop_last() == old(self).data.pending@.remove(i)
                    &&& final(self).data.pending@.last().cid_full@ == member_cid.full_view()
                    &&& final(self).data.pending@.last().display_name == display_name
                    &&& final(self).data.pending@.last().requested_at == now
                    &&& if has_member_name(old(self).data.members@, p.display_name@) {
                        &&& r is Err
                        &&& final(self).data.members@ == old(self).data.members@
                    } else {
                        r == Ok::<MemberRecord, CiviumError>(
                            admitted_record(p, TrustCircle::Connaissance, MemberRole::Member, now),
                        )
                    }
                }
            },
    {
        let ghost old_pending = self.data.pending@;
        match self.data.submit_join_request_at(member_cid, display_name, invite, None, now) {
            Err(e) => Err(e),
            Ok(()) => {
                proof {
                    let np = self.data.pending@;
                    let short = member_cid.short_view();
                    lemma_pending_pos(old_pending, short);
                    lemma_pending_pos(np, short);
                    let i = pending_pos(old_pending, short);
                    let k = pending_pos(np, short);
                    assert forall|j: int| 0 <= j < old_pending.len() implies #[trigger] np[j] == old_pending[j] by {
                        assert(np.drop_last()[j] == old_pending[j]);
                    }
                    if i == -1 {
                        if k != -1 && k < old_pending.len() {
                            assert(np[k] == old_pending[k]);
                        }
                        assert(k == old_pending.len());
                    } else {
                        assert(np[i] == old_pending[i]);
                        if k != -1 && k < i {
                            assert(np[k] == old_pending[k]);
                        }
                        assert(k == i);
                    }
                }
                let r = self.data.admit_at(member_cid.short(), TrustCircle::Connaissance, MemberRole::Member, now);
                proof {
                    let i = pending_pos(old_pending, member_cid.short_view());
                    if i != -1 {
                        assert(self.data.pending@.drop_last() =~= old_pending.remove(i));
                    }
                }
                r
            },
        }
    }

    pub fn address_for(&self, member_cid: &Cid) -> (a: NetworkAddress)
        ensures
            a.member_short@ == member_cid.short_view(),
            a.network_short == self.data.cid_short,
    {
        NetworkAddress { member_short: owned(member_cid.short()), network_short: self.data.cid_short.clone() }
    }
}

} // verus!
