//! Directories (networks that list networks and members), their federations, and
//! registries of malicious networks ("RRM") that other networks choose to trust.
use vstd::prelude::*;
use crate::entropy::{unix_now, uuid_v4};
use crate::text::{contains_segment, has_segment, lowercase, owned, str_eq, to_lowercase};
use crate::member::copy_opt_string;

verus! {

/// What a directory entry describes.
#[derive(Debug, Clone, Copy, PartialEq, Eq, Structural)]
pub enum EntryKind {
    Network,
    Member,
}

impl EntryKind {
    /// `network` or `member`.
    pub fn to_string(&self) -> (s: String)
        ensures
            *self == EntryKind::Network ==> s@ == "network"@,
            *self == EntryKind::Member ==> s@ == "member"@,
    {
        match self {
            EntryKind::Network => owned("network"),
            EntryKind::Member => owned("member"),
        }
    }

    /// Parses `network` or `member`.
    pub fn from_str(s: &str) -> (r: Result<EntryKind, String>)
        ensures
            s@ == "network"@ <==> r == Ok::<EntryKind, String>(EntryKind::Network),
            s@ == "member"@ <==> r == Ok::<EntryKind, String>(EntryKind::Member),
    {
        proof {
            reveal_strlit("network");
            reveal_strlit("member");
            assert("network"@ != "member"@) by {
                assert("network"@[0] != "member"@[0]);
            }
        }
        if str_eq(s, "network") {
            Ok(EntryKind::Network)
        } else if str_eq(s, "member") {
            Ok(EntryKind::Member)
        } else {
            Err(owned("unknown kind — use network or member"))
        }
    }
}

/// An entry published in a directory.
#[derive(Debug)]
pub struct DirectoryEntry {
    pub id: String,
    pub directory_cid_short: String,
    pub kind: EntryKind,
    pub subject_cid_short: String,
    pub subject_name: String,
    pub description: String,
    pub contact_addr: Option<String>,
    pub published_by: String,
    pub published_at: u64,
    pub tags: Vec<String>,
}

/// Some tag, lowercased, contains `q`.
pub open spec fn some_tag_matches(tags: Seq<String>, q: Seq<char>) -> bool {
    exists|i: int| 0 <= i < tags.len() && has_segment(lowercase(#[trigger] tags[i]@), q)
}

/// A directory entry matches a query when its name, description or tags, lowercased,
/// or its subject's short CID, contain the lowercased query.
pub open spec fn entry_matches(e: DirectoryEntry, query: Seq<char>) -> bool {
    let q = lowercase(query);
    has_segment(lowercase(e.subject_name@), q) || has_segment(lowercase(e.description@), q)
        || has_segment(e.subject_cid_short@, q) || has_segment(e.subject_cid_short@, query)
        || some_tag_matches(e.tags@, q)
}

impl DirectoryEntry {
    /// A new entry with identifier `id`, published at `now`.
    pub fn new_at(
        id: String,
        directory_cid_short: String,
        kind: EntryKind,
        subject_cid_short: String,
        subject_name: String,
        description: String,
        contact_addr: Option<String>,
        published_by: String,
        tags: Vec<String>,
        now: u64,
    ) -> (e: DirectoryEntry)
        ensures
            e == (DirectoryEntry {
                id,
                directory_cid_short,
                kind,
                subject_cid_short,
                subject_name,
                description,
                contact_addr,
                published_by,
                published_at: now,
                tags,
            }),
    {
        DirectoryEntry {
            id,
            directory_cid_short,
            kind,
            subject_cid_short,
            subject_name,
            description,
            contact_addr,
            published_by,
            published_at: now,
            tags,
        }
    }

    /// A new entry, published now under a random UUID.
    pub fn new(
        directory_cid_short: String,
        kind: EntryKind,
        subject_cid_short: String,
        subject_name: String,
        description: String,
        contact_addr: Option<String>,
        published_by: String,
        tags: Vec<String>,
    ) -> (e: DirectoryEntry)
        ensures
            e.directory_cid_short == directory_cid_short,
            e.kind == kind,
            e.subject_cid_short == subject_cid_short,
            e.subject_name == subject_name,
            e.description == description,
            e.contact_addr == contact_addr,
            e.published_by == published_by,
            e.tags == tags,
    {
        let now = unix_now();
        Self::new_at(
            uuid_v4(),
            directory_cid_short,
            kind,
            subject_cid_short,
            subject_name,
            description,
            contact_addr,
            published_by,
            tags,
            now,
        )
    }

    /// Whether the entry matches `query`: case-insensitive on name, description and tags;
    /// the CID matches the query as written or lowercased.
    pub fn matches(&self, query: &str) -> (b: bool)
        ensures
            b == entry_matches(*self, query@),
    {
        let q = to_lowercase(query);
        let name = to_lowercase(self.subject_name.as_str());
        if contains_segment(name.as_str(), q.as_str()) {
            return true;
        }
        let desc = to_lowercase(self.description.as_str());
        if contains_segment(desc.as_str(), q.as_str()) {
            return true;
        }
        if contains_segment(self.subject_cid_short.as_str(), q.as_str())
            || contains_segment(self.subject_cid_short.as_str(), query) {
            return true;
        }
        let mut i: usize = 0;
        while i < self.tags.len()
            invariant
                i <= self.tags.len(),
                q@ == lowercase(query@),
                forall|j: int| 0 <= j < i ==> !has_segment(lowercase(#[trigger] self.tags@[j]@), q@),
            decreases self.tags.len() - i,
        {
            let t = to_lowercase(self.tags[i].as_str());
            if contains_segment(t.as_str(), q.as_str()) {
                return true;
            }
            i = i + 1;
        }
        false
    }
}

/// A directory federated with another one.
#[derive(Debug)]
pub struct FederatedDirectory {
    pub id: String,
    pub host_cid_short: String,
    pub peer_cid_short: String,
    pub peer_name: String,
    pub peer_addr: Option<String>,
    pub added_by: String,
    pub added_at: u64,
}

impl FederatedDirectory {
    /// A new federation with identifier `id`, added at `now`.
    pub fn new_at(
        id: String,
        host_cid_short: String,
        peer_cid_short: String,
        peer_name: String,
        peer_addr: Option<String>,
        added_by: String,
        now: u64,
    ) -> (f: FederatedDirectory)
        ensures
            f == (FederatedDirectory { id, host_cid_short, peer_cid_short, peer_name, peer_addr, added_by, added_at: now }),
    {
        FederatedDirectory { id, host_cid_short, peer_cid_short, peer_name, peer_addr, added_by, added_at: now }
    }

    /// A new federation, added now under a random UUID.
    pub fn new(
        host_cid_short: String,
        peer_cid_short: String,
        peer_name: String,
        peer_addr: Option<String>,
        added_by: String,
    ) -> (f: FederatedDirectory)
        ensures
            f.host_cid_short == host_cid_short,
            f.peer_cid_short == peer_cid_short,
            f.peer_name == peer_name,
            f.peer_addr == peer_addr,
            f.added_by == added_by,
    {
        let now = unix_now();
        Self::new_at(uuid_v4(), host_cid_short, peer_cid_short, peer_name, peer_addr, added_by, now)
    }
}

/// A network reported to a registry of malicious networks.
#[derive(Debug)]
pub struct RrmEntry {
    pub id: String,
    pub rrm_cid_short: String,
    pub network_cid_short: String,
    pub network_name: String,
    pub reason: String,
    pub evidence_url: Option<String>,
    pub reported_by: String,
    pub reported_at: u64,
}

/// A report matches a query when the network's name or the reason, lowercased, or the
/// network's short CID, contain the lowercased query.
pub open spec fn rrm_matches(e: RrmEntry, query: Seq<char>) -> bool {
    let q = lowercase(query);
    has_segment(lowercase(e.network_name@), q) || has_segment(e.network_cid_short@, q) || has_segment(
        lowercase(e.reason@),
        q,
    )
}

impl RrmEntry {
    /// A new report with identifier `id`, made at `now`.
    pub fn new_at(
        id: String,
        rrm_cid_short: String,
        network_cid_short: String,
        network_name: String,
        reason: String,
        evidence_url: Option<String>,
        reported_by: String,
        now: u64,
    ) -> (e: RrmEntry)
        ensures
            e == (RrmEntry {
                id,
                rrm_cid_short,
                network_cid_short,
                network_name,
                reason,
                evidence_url,
                reported_by,
                reported_at: now,
            }),
    {
        RrmEntry { id, rrm_cid_short, network_cid_short, network_name, reason, evidence_url, reported_by, reported_at: now }
    }

    /// A new report, made now under a random UUID.
    pub fn new(
        rrm_cid_short: String,
        network_cid_short: String,
        network_name: String,
        reason: String,
        evidence_url: Option<String>,
        reported_by: String,
    ) -> (e: RrmEntry)
        ensures
            e.rrm_cid_short == rrm_cid_short,
            e.network_cid_short == network_cid_short,
            e.network_name == network_name,
            e.reason == reason,
            e.evidence_url == evidence_url,
            e.reported_by == reported_by,
    {
        let now = unix_now();
        Self::new_at(uuid_v4(), rrm_cid_short, network_cid_short, network_name, reason, evidence_url, reported_by, now)
    }

    /// Whether the report matches `query`, lowercased, in its name (lowercased), its CID
    /// or its reason (lowercased).
    pub fn matches(&self, query: &str) -> (b: bool)
        ensures
            b == rrm_matches(*self, query@),
    {
        let q = to_lowercase(query);
        let name = to_lowercase(self.network_name.as_str());
        if contains_segment(name.as_str(), q.as_str()) {
            return true;
        }
        if contains_segment(self.network_cid_short.as_str(), q.as_str()) {
            return true;
        }
        let reason = to_lowercase(self.reason.as_str());
        contains_segment(reason.as_str(), q.as_str())
    }

    /// An exact copy.
    pub fn copy(&self) -> (r: RrmEntry)
        ensures
            r == *self,
    {
        RrmEntry {
            id: self.id.clone(),
            rrm_cid_short: self.rrm_cid_short.clone(),
            network_cid_short: self.network_cid_short.clone(),
            network_name: self.network_name.clone(),
            reason: self.reason.clone(),
            evidence_url: copy_opt_string(&self.evidence_url),
            reported_by: self.reported_by.clone(),
            reported_at: self.reported_at,
        }
    }
}

/// A registry of malicious networks that a network trusts.
#[derive(Debug)]
pub struct TrustedRrm {
    pub id: String,
    pub network_cid_short: String,
    pub rrm_cid_short: String,
    pub rrm_name: String,
    pub added_by: String,
    pub added_at: u64,
}

impl TrustedRrm {
    /// A new trust with identifier `id`, added at `now`.
    pub fn new_at(
        id: String,
        network_cid_short: String,
        rrm_cid_short: String,
        rrm_name: String,
        added_by: String,
        now: u64,
    ) -> (t: TrustedRrm)
        ensures
            t == (TrustedRrm { id, network_cid_short, rrm_cid_short, rrm_name, added_by, added_at: now }),
    {
        TrustedRrm { id, network_cid_short, rrm_cid_short, rrm_name, added_by, added_at: now }
    }

    /// A new trust, added now under a random UUID.
    pub fn new(network_cid_short: String, rrm_cid_short: String, rrm_name: String, added_by: String) -> (t: TrustedRrm)
        ensures
            t.network_cid_short == network_cid_short,
            t.rrm_cid_short == rrm_cid_short,
            t.rrm_name == rrm_name,
            t.added_by == added_by,
    {
        let now = unix_now();
        Self::new_at(uuid_v4(), network_cid_short, rrm_cid_short, rrm_name, added_by, now)
    }

    /// An exact copy.
    pub fn copy(&self) -> (r: TrustedRrm)
        ensures
            r == *self,
    {
        TrustedRrm {
            id: self.id.clone(),
            network_cid_short: self.network_cid_short.clone(),
            rrm_cid_short: self.rrm_cid_short.clone(),
            rrm_name: self.rrm_name.clone(),
            added_by: self.added_by.clone(),
            added_at: self.added_at,
        }
    }
}

/// The entries of `s`, in order, that match `q`.
pub open spec fn matching_entries(s: Seq<DirectoryEntry>, q: Seq<char>) -> Seq<DirectoryEntry>
    decreases s.len(),
{
    if s.len() == 0 {
        Seq::empty()
    } else {
        let rest = matching_entries(s.drop_last(), q);
        if entry_matches(s.last(), q) {
            rest.push(s.last())
        } else {
            rest
        }
    }
}

/// The reports of `s`, in order, that match `q`.
pub open spec fn matching_reports(s: Seq<RrmEntry>, q: Seq<char>) -> Seq<RrmEntry>
    decreases s.len(),
{
    if s.len() == 0 {
        Seq::empty()
    } else {
        let rest = matching_reports(s.drop_last(), q);
        if rrm_matches(s.last(), q) {
            rest.push(s.last())
        } else {
            rest
        }
    }
}

/// The entries of a directory that match `query`, in order.
pub fn search_directory_entries(entries: Vec<DirectoryEntry>, query: &str) -> (r: Vec<DirectoryEntry>)
    ensures
        r@ == matching_entries(entries@, query@),
{
    let ghost orig = entries@;
    let mut entries = entries;
    let mut out: Vec<DirectoryEntry> = Vec::new();
    let ghost mut i: int = 0;
    assert(orig.subrange(0, 0) =~= Seq::<DirectoryEntry>::empty());
    assert(orig.subrange(0, orig.len() as int) =~= orig);
    while entries.len() > 0
        invariant
            0 <= i <= orig.len(),
            entries@ == orig.subrange(i, orig.len() as int),
            out@ == matching_entries(orig.subrange(0, i), query@),
        decreases entries.len(),
    {
        let e = entries.remove(0);
        proof {
            let sub = orig.subrange(0, i + 1);
            assert(sub.drop_last() =~= orig.subrange(0, i));
            assert(sub.last() == e);
            assert(entries@ =~= orig.subrange(i + 1, orig.len() as int));
        }
        if e.matches(query) {
            out.push(e);
        }
        proof {
            i = i + 1;
        }
    }
    assert(orig.subrange(0, i) =~= orig);
    out
}

/// The reports of a registry that match `query`, in order.
pub fn search_rrm_entries(entries: Vec<RrmEntry>, query: &str) -> (r: Vec<RrmEntry>)
    ensures
        r@ == matching_reports(entries@, query@),
{
    let mut out: Vec<RrmEntry> = Vec::new();
    let mut i: usize = 0;
    while i < entries.len()
        invariant
            i <= entries.len(),
            out@ == matching_reports(entries@.subrange(0, i as int), query@),
        decreases entries.len() - i,
    {
        proof {
            let sub = entries@.subrange(0, i + 1);
            assert(sub.drop_last() =~= entries@.subrange(0, i as int));
            assert(sub.last() == entries@[i as int]);
        }
        if entries[i].matches(query) {
            out.push(entries[i].copy());
        }
        i = i + 1;
    }
    assert(entries@.subrange(0, entries@.len() as int) =~= entries@);
    out
}

/// The first report in `reports` about the network `peer`, if any.
pub open spec fn first_report(reports: Seq<RrmEntry>, peer: Seq<char>) -> Option<RrmEntry>
    decreases reports.len(),
{
    if reports.len() == 0 {
        None
    } else if reports[0].network_cid_short@ == peer {
        Some(reports[0])
    } else {
        first_report(reports.drop_first(), peer)
    }
}

/// The warnings about `peer`: for each trusted registry in order, its first report on
/// `peer`, if it has one.
pub open spec fn warnings_of(trusts: Seq<TrustedRrm>, reports: Seq<Vec<RrmEntry>>, peer: Seq<char>) -> Seq<(TrustedRrm, RrmEntry)>
    decreases trusts.len(),
{
    if trusts.len() == 0 {
        Seq::empty()
    } else {
        let rest = warnings_of(trusts.drop_last(), reports.drop_last(), peer);
        match first_report(reports.last()@, peer) {
            Some(e) => rest.push((trusts.last(), e)),
            None => rest,
        }
    }
}

fn find_report(reports: &Vec<RrmEntry>, peer: &str) -> (r: Option<usize>)
    ensures
        match r {
            Some(i) => i < reports@.len() && first_report(reports@, peer@) == Some(reports@[i as int]),
            None => first_report(reports@, peer@) is None,
        },
{
    let mut i: usize = 0;
    assert(reports@.skip(0) =~= reports@);
    while i < reports.len()
        invariant
            i <= reports.len(),
            first_report(reports@, peer@) == first_report(reports@.skip(i as int), peer@),
        decreases reports.len() - i,
    {
        proof {
            assert(reports@.skip(i as int)[0] == reports@[i as int]);
            assert(reports@.skip(i as int).drop_first() =~= reports@.skip(i + 1));
        }
        if str_eq(reports[i].network_cid_short.as_str(), peer) {
            return Some(i);
        }
        i = i + 1;
    }
    None
}

/// The warnings about the network `peer_cid_short` from the registries that a network
/// trusts: `reports[i]` holds the reports of the registry `trusts[i]`; each registry
/// contributes its first report on the peer.
pub fn check_rrm_warnings(trusts: &Vec<TrustedRrm>, reports: &Vec<Vec<RrmEntry>>, peer_cid_short: &str) -> (w: Vec<(TrustedRrm, RrmEntry)>)
    requires
        reports@.len() == trusts@.len(),
    ensures
        w@ == warnings_of(trusts@, reports@, peer_cid_short@),
{
    let mut w: Vec<(TrustedRrm, RrmEntry)> = Vec::new();
    let mut i: usize = 0;
    assert(trusts@.subrange(0, 0) =~= Seq::<TrustedRrm>::empty());
    assert(reports@.subrange(0, 0) =~= Seq::<Vec<RrmEntry>>::empty());
    while i < trusts.len()
        invariant
            reports@.len() == trusts@.len(),
            i <= trusts.len(),
            w@ == warnings_of(trusts@.subrange(0, i as int), reports@.subrange(0, i as int), peer_cid_short@),
        decreases trusts.len() - i,
    {
        proof {
            assert(trusts@.subrange(0, i + 1).drop_last() =~= trusts@.subrange(0, i as int));
            assert(reports@.subrange(0, i + 1).drop_last() =~= reports@.subrange(0, i as int));
            assert(trusts@.subrange(0, i + 1).last() == trusts@[i as int]);
            assert(reports@.subrange(0, i + 1).last() == reports@[i as int]);
        }
        match find_report(&reports[i], peer_cid_short) {
            Some(j) => {
                w.push((trusts[i].copy(), reports[i][j].copy()));
            },
            None => {},
        }
        i = i + 1;
    }
    assert(trusts@.subrange(0, trusts@.len() as int) =~= trusts@);
    assert(reports@.subrange(0, reports@.len() as int) =~= reports@);
    w
}

/// The first report on `peer` is the earliest report in the list whose CID is `peer`.
proof fn lemma_first_report(reports: Seq<RrmEntry>, peer: Seq<char>)
    ensures
        first_report(reports, peer) is None <==> forall|j: int| 0 <= j < reports.len() ==> #[trigger] reports[j].network_cid_short@ != peer,
        first_report(reports, peer) matches Some(e) ==> exists|j0: int| 0 <= j0 < reports.len() && reports[j0] == e
            && e.network_cid_short@ == peer && forall|j: int| 0 <= j < j0 ==> #[trigger] reports[j].network_cid_short@ != peer,
    decreases reports.len(),
{
    if reports.len() > 0 && reports[0].network_cid_short@ != peer {
        let t = reports.drop_first();
        lemma_first_report(t, peer);
        assert forall|j: int| 0 <= j < t.len() implies #[trigger] t[j] == reports[j + 1] by {}
        if first_report(t, peer) is None {
            assert forall|j: int| 0 <= j < reports.len() implies #[trigger] reports[j].network_cid_short@ != peer by {
                if j > 0 {
                    assert(reports[j] == t[j - 1]);
                }
            }
        } else {
            let e = first_report(t, peer).unwrap();
            let j0 = choose|j0: int| 0 <= j0 < t.len() && t[j0] == e && e.network_cid_short@ == peer
                && forall|j: int| 0 <= j < j0 ==> #[trigger] t[j].network_cid_short@ != peer;
            assert(reports[j0 + 1] == e);
            assert forall|j: int| 0 <= j < j0 + 1 implies #[trigger] reports[j].network_cid_short@ != peer by {
                if j > 0 {
                    assert(reports[j] == t[j - 1]);
                }
            }
        }
    }
}

/// Every trusted registry that reported the peer gives one warning: for each `i` whose
/// reports hold one on `peer`, the warnings hold `(trusts[i], r)` with `r` the earliest
/// such report; every warning is about `peer` and comes from a trusted registry; and
/// there are no more warnings than registries.
pub proof fn lemma_warnings_law(trusts: Seq<TrustedRrm>, reports: Seq<Vec<RrmEntry>>, peer: Seq<char>)
    requires
        reports.len() == trusts.len(),
    ensures
        forall|i: int, j0: int| 0 <= i < trusts.len() && 0 <= j0 < reports[i]@.len()
            && (#[trigger] reports[i]@[j0]).network_cid_short@ == peer
            && (forall|j: int| 0 <= j < j0 ==> (#[trigger] reports[i]@[j]).network_cid_short@ != peer)
            ==> warnings_of(trusts, reports, peer).contains((trusts[i], reports[i]@[j0])),
        forall|k: int| 0 <= k < warnings_of(trusts, reports, peer).len() ==> (#[trigger] warnings_of(trusts, reports, peer)[k]).1.network_cid_short@ == peer
            && trusts.contains(warnings_of(trusts, reports, peer)[k].0),
        warnings_of(trusts, reports, peer).len() <= trusts.len(),
    decreases trusts.len(),
{
    if trusts.len() > 0 {
        let tt = trusts.drop_last();
        let rr = reports.drop_last();
        lemma_warnings_law(tt, rr, peer);
        let rest = warnings_of(tt, rr, peer);
        let w = warnings_of(trusts, reports, peer);
        let n = trusts.len() - 1;
        lemma_first_report(reports.last()@, peer);
        assert forall|i: int, j0: int| 0 <= i < trusts.len() && 0 <= j0 < reports[i]@.len()
            && (#[trigger] reports[i]@[j0]).network_cid_short@ == peer
            && (forall|j: int| 0 <= j < j0 ==> (#[trigger] reports[i]@[j]).network_cid_short@ != peer)
            implies w.contains((trusts[i], reports[i]@[j0])) by {
            if i < n {
                assert(tt[i] == trusts[i]);
                assert(rr[i] == reports[i]);
                assert(rest.contains((tt[i], rr[i]@[j0])));
                let k = choose|k: int| 0 <= k < rest.len() && rest[k] == (tt[i], rr[i]@[j0]);
                assert(w[k] == rest[k]);
            } else {
                let r = reports.last()@;
                assert(reports[i] == reports.last());
                assert(r[j0].network_cid_short@ == peer);
                let e = first_report(r, peer).unwrap();
                let j1 = choose|j1: int| 0 <= j1 < r.len() && r[j1] == e && e.network_cid_short@ == peer
                    && forall|j: int| 0 <= j < j1 ==> #[trigger] r[j].network_cid_short@ != peer;
                if j1 < j0 {
                    assert(r[j1].network_cid_short@ != peer);
                }
                if j0 < j1 {
                    assert(r[j0].network_cid_short@ != peer);
                }
                assert(j0 == j1);
                assert(w[w.len() - 1] == (trusts.last(), e));
                assert(trusts[i] == trusts.last());
            }
        }
        assert forall|k: int| 0 <= k < w.len() implies (#[trigger] w[k]).1.network_cid_short@ == peer && trusts.contains(w[k].0) by {
            if k < rest.len() {
                assert(w[k] == rest[k]);
                assert(tt.contains(rest[k].0));
                let m = choose|m: int| 0 <= m < tt.len() && tt[m] == rest[k].0;
                assert(trusts[m] == tt[m]);
            } else {
                let e = first_report(reports.last()@, peer).unwrap();
                assert(w[k] == (trusts.last(), e));
                assert(trusts[n] == trusts.last());
            }
        }
    }
}

} // verus!
