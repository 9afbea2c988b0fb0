//! Governance: proposals and votes, and the majority safeguard on admin actions (members
//! can contest an admin action during a window; a majority of contests suspends it and
//! opens a vote).
use vstd::prelude::*;
use vstd::utf8::encode_utf8;
use crate::encoding::{bs58_encode, bs58_text};
use crate::error::CiviumError;
use crate::identity::Cid;
use crate::member::MemberRecord;
use crate::network::{has_member_full, member_with_full};
use crate::hashing::{blake3_digest, blake3_hash};
use crate::text::{append_str, decimal, decimal_string, has_prefix, owned, push_char, starts_with, str_eq, take_chars, take_prefix, views};

verus! {

/// Number of characters kept in proposal and action identifiers.
pub const ID_LEN: usize = 12;

/// Default contest window of an admin action: 24 hours.
pub const DEFAULT_CONTEST_WINDOW_SECS: u64 = 86_400;

/// Duration of the vote opened when an admin action is suspended: 72 hours.
pub const SAFEGUARD_VOTE_SECS: u64 = 259_200;

/// The identifier derived from `raw`: the first 12 Base58 characters of the BLAKE3
/// digest of its UTF-8 bytes.
pub open spec fn short_id(raw: Seq<char>) -> Seq<char> {
    take_chars(bs58_text(blake3_digest(encode_utf8(raw))), ID_LEN as nat)
}

/// Computes `short_id(raw)`.
pub fn short_id_of(raw: &str) -> (id: String)
    ensures
        id@ == short_id(raw@),
{
    let h = blake3_hash(raw.as_bytes());
    let b = bs58_encode(&h);
    take_prefix(b.as_str(), ID_LEN)
}

/// What an admin did.
#[derive(Debug, PartialEq, Eq)]
pub enum AdminActionKind {
    MemberAdmitted { member_cid_short: String, display_name: String },
    MemberRejected { member_cid_short: String },
    MemberBanned { member_cid_short: String },
}

/// The displayed text of an admin action.
pub open spec fn kind_text(k: AdminActionKind) -> Seq<char> {
    match k {
        AdminActionKind::MemberAdmitted { member_cid_short, display_name } => "Admission de "@
            + display_name@ + " ("@ + member_cid_short@ + ")"@,
        AdminActionKind::MemberRejected { member_cid_short } => "Rejet de "@ + member_cid_short@,
        AdminActionKind::MemberBanned { member_cid_short } => "Bannissement de "@ + member_cid_short@,
    }
}

impl AdminActionKind {
    /// `Admission de <name> (<cid>)`, `Rejet de <cid>` or `Bannissement de <cid>`.
    pub fn to_string(&self) -> (s: String)
        ensures
            s@ == kind_text(*self),
    {
        let mut s = String::new();
        match self {
            AdminActionKind::MemberAdmitted { member_cid_short, display_name } => {
                append_str(&mut s, "Admission de ");
                append_str(&mut s, display_name.as_str());
                append_str(&mut s, " (");
                append_str(&mut s, member_cid_short.as_str());
                append_str(&mut s, ")");
            },
            AdminActionKind::MemberRejected { member_cid_short } => {
                append_str(&mut s, "Rejet de ");
                append_str(&mut s, member_cid_short.as_str());
            },
            AdminActionKind::MemberBanned { member_cid_short } => {
                append_str(&mut s, "Bannissement de ");
                append_str(&mut s, member_cid_short.as_str());
            },
        }
        s
    }
}

/// Where an admin action stands.
#[derive(Debug, PartialEq, Eq)]
pub enum AdminActionStatus {
    /// Within the contest window, no majority against yet.
    Active,
    /// The contest window ended without a majority against.
    Confirmed,
    /// A majority contested; a proposal was opened.
    Suspended { proposal_id: String },
    /// The vote reversed the action.
    Reversed,
    /// The vote upheld the action.
    Upheld,
}

impl AdminActionStatus {
    /// `active`, `confirmed`, `suspended`, `reversed` or `upheld`.
    pub fn to_string(&self) -> (s: String)
        ensures
            *self is Active ==> s@ == "active"@,
            *self is Confirmed ==> s@ == "confirmed"@,
            *self is Suspended ==> s@ == "suspended"@,
            *self is Reversed ==> s@ == "reversed"@,
            *self is Upheld ==> s@ == "upheld"@,
    {
        match self {
            AdminActionStatus::Active => owned("active"),
            AdminActionStatus::Confirmed => owned("confirmed"),
            AdminActionStatus::Suspended { .. } => owned("suspended"),
            AdminActionStatus::Reversed => owned("reversed"),
            AdminActionStatus::Upheld => owned("upheld"),
        }
    }
}

/// An admin action, open to contest by the members for a time.
#[derive(Debug)]
pub struct AdminAction {
    pub id: String,
    pub network_cid_short: String,
    pub kind: AdminActionKind,
    pub taken_by: String,
    pub taken_at: u64,
    /// Seconds after `taken_at` during which members can contest.
    pub contest_window_secs: u64,
    /// Short CIDs of the members who contested this action.
    pub contests: Vec<String>,
    pub status: AdminActionStatus,
}

/// The text hashed into an admin action's identifier.
pub open spec fn action_raw(network: Seq<char>, taken_by: Seq<char>, taken_at: u64, kind: AdminActionKind) -> Seq<char> {
    network + seq![':'] + taken_by + seq![':'] + decimal(taken_at as nat) + seq![':'] + kind_text(kind)
}

/// No short CID occurs twice.
pub open spec fn no_duplicates(s: Seq<String>) -> bool {
    forall|i: int, j: int| 0 <= i < s.len() && 0 <= j < s.len() && i != j ==> #[trigger] s[i]@ != #[trigger] s[j]@
}

/// `voter` is among `s`.
pub open spec fn contains_cid(s: Seq<String>, voter: Seq<char>) -> bool {
    exists|i: int| 0 <= i < s.len() && #[trigger] s[i]@ == voter
}

/// Strictly more than half of `total` (and `total` is not zero).
pub open spec fn is_majority(count: nat, total: nat) -> bool {
    total > 0 && count * 2 > total
}

impl AdminAction {
    /// Records an admin action; a window of 0 stands for the 24-hour default. Its
    /// identifier is derived from the network, the admin, the time and the action.
    pub fn new(
        network_cid_short: String,
        kind: AdminActionKind,
        taken_by: String,
        taken_at: u64,
        contest_window_secs: u64,
    ) -> (a: AdminAction)
        ensures
            a.id@ == short_id(action_raw(network_cid_short@, taken_by@, taken_at, kind)),
            a.network_cid_short == network_cid_short,
            a.kind == kind,
            a.taken_by == taken_by,
            a.taken_at == taken_at,
            a.contest_window_secs == (if contest_window_secs == 0 {
                DEFAULT_CONTEST_WINDOW_SECS
            } else {
                contest_window_secs
            }),
            a.contests@.len() == 0,
            a.status == AdminActionStatus::Active,
    {
        let mut raw = network_cid_short.clone();
        push_char(&mut raw, ':');
        append_str(&mut raw, taken_by.as_str());
        push_char(&mut raw, ':');
        let t = decimal_string(taken_at);
        append_str(&mut raw, t.as_str());
        push_char(&mut raw, ':');
        let k = kind.to_string();
        append_str(&mut raw, k.as_str());
        assert(raw@ =~= action_raw(network_cid_short@, taken_by@, taken_at, kind));
        let id = short_id_of(raw.as_str());
        AdminAction {
            id,
            network_cid_short,
            kind,
            taken_by,
            taken_at,
            contest_window_secs: if contest_window_secs == 0 {
                DEFAULT_CONTEST_WINDOW_SECS
            } else {
                contest_window_secs
            },
            contests: Vec::new(),
            status: AdminActionStatus::Active,
        }
    }

    /// The contest window is still open at `now`.
    pub fn is_window_open(&self, now: u64) -> (b: bool)
        ensures
            b == (now < self.taken_at + self.contest_window_secs),
    {
        if self.taken_at > u64::MAX - self.contest_window_secs {
            true
        } else {
            now < self.taken_at + self.contest_window_secs
        }
    }

    /// Strictly more than half of `total_members` contested.
    pub fn majority_contested(&self, total_members: usize) -> (b: bool)
        ensures
            b == is_majority(self.contests@.len(), total_members as nat),
    {
        total_members > 0 && self.contests.len() > total_members / 2
    }
}

/// Records a contest by `voter_cid_short`, unless that member already contested; returns
/// whether this contest just reached the majority of `total_members`: no majority before,
/// a majority after (false for a repeated contest).
pub fn add_contest(action: &mut AdminAction, voter_cid_short: &str, total_members: usize) -> (b: bool)
    ensures
        final(action).id == old(action).id,
        final(action).network_cid_short == old(action).network_cid_short,
        final(action).kind == old(action).kind,
        final(action).taken_by == old(action).taken_by,
        final(action).taken_at == old(action).taken_at,
        final(action).contest_window_secs == old(action).contest_window_secs,
        final(action).status == old(action).status,
        contains_cid(old(action).contests@, voter_cid_short@) ==> final(action).contests@ == old(
            action,
        ).contests@ && !b,
        !contains_cid(old(action).contests@, voter_cid_short@) ==> final(action).contests@.len()
            == old(action).contests@.len() + 1 && final(action).contests@.drop_last() == old(
            action,
        ).contests@ && final(action).contests@.last()@ == voter_cid_short@ && b == (!is_majority(
            old(action).contests@.len(),
            total_members as nat,
        ) && is_majority(final(action).contests@.len(), total_members as nat)),
        no_duplicates(old(action).contests@) ==> no_duplicates(final(action).contests@),
        contains_cid(final(action).contests@, voter_cid_short@),
{
    let mut i: usize = 0;
    while i < action.contests.len()
        invariant
            i <= action.contests.len(),
            forall|j: int| 0 <= j < i ==> #[trigger] action.contests@[j]@ != voter_cid_short@,
        decreases action.contests.len() - i,
    {
        if str_eq(action.contests[i].as_str(), voter_cid_short) {
            return false;
        }
        i = i + 1;
    }
    let before = action.majority_contested(total_members);
    action.contests.push(owned(voter_cid_short));
    proof {
        let s = action.contests@;
        assert(s[s.len() - 1]@ == voter_cid_short@);
        assert forall|a: int, b: int|
            0 <= a < s.len() && 0 <= b < s.len() && a != b && no_duplicates(old(action).contests@)
                implies #[trigger] s[a]@ != #[trigger] s[b]@ by {
            if a == s.len() - 1 {
                assert(old(action).contests@[b] == s[b]);
            } else if b == s.len() - 1 {
                assert(old(action).contests@[a] == s[a]);
            }
        }
        assert(s.drop_last() =~= old(action).contests@);
    }
    let after = action.majority_contested(total_members);
    !before && after
}

/// Where a proposal stands.
#[derive(Debug, Clone, Copy, PartialEq, Eq, Structural)]
pub enum ProposalStatus {
    Open,
    Closed,
    Cancelled,
}

impl ProposalStatus {
    /// `open`, `closed` or `cancelled`.
    pub fn to_string(&self) -> (s: String)
        ensures
            *self == ProposalStatus::Open ==> s@ == "open"@,
            *self == ProposalStatus::Closed ==> s@ == "closed"@,
            *self == ProposalStatus::Cancelled ==> s@ == "cancelled"@,
    {
        match self {
            ProposalStatus::Open => owned("open"),
            ProposalStatus::Closed => owned("closed"),
            ProposalStatus::Cancelled => owned("cancelled"),
        }
    }
}

/// A question put to the members of a network, with options to choose from.
#[derive(Debug)]
pub struct Proposal {
    pub id: String,
    pub network_cid_short: String,
    pub title: String,
    pub description: String,
    pub options: Vec<String>,
    pub created_by: String,
    pub created_at: u64,
    pub closes_at: u64,
    /// Minimum percentage of members who must vote for the result to count (0: none).
    pub quorum_percent: u8,
    pub status: ProposalStatus,
}

/// The text hashed into a proposal's identifier.
pub open spec fn proposal_raw(network: Seq<char>, title: Seq<char>, created_at: u64) -> Seq<char> {
    network + seq![':'] + title + seq![':'] + decimal(created_at as nat)
}

impl Proposal {
    /// Opens a proposal; its identifier is derived from the network, the title and the
    /// creation time.
    pub fn new(
        network_cid_short: String,
        title: String,
        description: String,
        options: Vec<String>,
        created_by: String,
        created_at: u64,
        closes_at: u64,
        quorum_percent: u8,
    ) -> (p: Proposal)
        ensures
            p.id@ == short_id(proposal_raw(network_cid_short@, title@, created_at)),
            p.network_cid_short == network_cid_short,
            p.title == title,
            p.description == description,
            p.options == options,
            p.created_by == created_by,
            p.created_at == created_at,
            p.closes_at == closes_at,
            p.quorum_percent == quorum_percent,
            p.status == ProposalStatus::Open,
    {
        let mut raw = network_cid_short.clone();
        push_char(&mut raw, ':');
        append_str(&mut raw, title.as_str());
        push_char(&mut raw, ':');
        let t = decimal_string(created_at);
        append_str(&mut raw, t.as_str());
        assert(raw@ =~= proposal_raw(network_cid_short@, title@, created_at));
        let id = short_id_of(raw.as_str());
        Proposal {
            id,
            network_cid_short,
            title,
            description,
            options,
            created_by,
            created_at,
            closes_at,
            quorum_percent,
            status: ProposalStatus::Open,
        }
    }

    /// The proposal has a closing time and `now` has reached it.
    pub fn is_expired(&self, now: u64) -> (b: bool)
        ensures
            b == (self.closes_at > 0 && now >= self.closes_at),
    {
        self.closes_at > 0 && now >= self.closes_at
    }
}

/// A member's vote on a proposal.
#[derive(Debug)]
pub struct Vote {
    pub proposal_id: String,
    pub voter_cid_short: String,
    pub choice_index: usize,
    pub cast_at: u64,
}

/// Number of votes among `votes` for option `i`.
pub open spec fn count_choice(votes: Seq<Vote>, i: int) -> nat
    decreases votes.len(),
{
    if votes.len() == 0 {
        0
    } else {
        count_choice(votes.drop_last(), i) + (if votes.last().choice_index == i {
            1nat
        } else {
            0nat
        })
    }
}

proof fn lemma_count_choice_bound(votes: Seq<Vote>, i: int)
    ensures
        count_choice(votes, i) <= votes.len(),
    decreases votes.len(),
{
    if votes.len() > 0 {
        lemma_count_choice_bound(votes.drop_last(), i);
    }
}

/// The number of votes for each of `n_options` options; votes for an option that does
/// not exist are not counted.
pub fn count_votes(n_options: usize, votes: &Vec<Vote>) -> (counts: Vec<usize>)
    ensures
        counts@.len() == n_options,
        forall|i: int| 0 <= i < n_options ==> #[trigger] counts@[i] == count_choice(votes@, i),
{
    let mut counts: Vec<usize> = Vec::new();
    let mut k: usize = 0;
    while k < n_options
        invariant
            k <= n_options,
            counts@.len() == k,
            forall|i: int| 0 <= i < k ==> #[trigger] counts@[i] == 0,
        decreases n_options - k,
    {
        counts.push(0);
        k = k + 1;
    }
    let mut v: usize = 0;
    while v < votes.len()
        invariant
            v <= votes.len(),
            counts@.len() == n_options,
            forall|i: int| 0 <= i < n_options ==> #[trigger] counts@[i] == count_choice(votes@.subrange(0, v as int), i),
        decreases votes.len() - v,
    {
        let c = votes[v].choice_index;
        proof {
            let sub = votes@.subrange(0, v + 1);
            assert(sub.drop_last() =~= votes@.subrange(0, v as int));
            assert forall|i: int| 0 <= i < n_options implies count_choice(votes@.subrange(0, v as int), i) < votes.len() by {
                lemma_count_choice_bound(votes@.subrange(0, v as int), i);
            }
        }
        if c < counts.len() {
            let old_c = counts[c];
            counts.set(c, old_c + 1);
        }
        v = v + 1;
    }
    assert(votes@.subrange(0, votes@.len() as int) =~= votes@);
    counts
}

/// Option `i` has strictly more votes than every other option.
pub open spec fn unique_max(counts: Seq<usize>, i: int) -> bool {
    &&& 0 <= i < counts.len()
    &&& forall|j: int| 0 <= j < counts.len() && j != i ==> #[trigger] counts[j] < counts[i]
}

/// The option with strictly the most votes, or `None` when there is no option or the
/// highest count is shared.
pub fn plurality_winner(counts: &Vec<usize>) -> (w: Option<usize>)
    ensures
        w matches Some(i) ==> unique_max(counts@, i as int),
        w is None ==> forall|i: int| !unique_max(counts@, i),
{
    if counts.len() == 0 {
        return None;
    }
    let mut best: usize = 0;
    let mut i: usize = 1;
    while i < counts.len()
        invariant
            1 <= i <= counts.len(),
            best < i,
            forall|j: int| 0 <= j < i ==> #[trigger] counts@[j] <= counts@[best as int],
        decreases counts.len() - i,
    {
        if counts[i] > counts[best] {
            best = i;
        }
        i = i + 1;
    }
    let mut k: usize = 0;
    while k < counts.len()
        invariant
            k <= counts.len(),
            best < counts.len(),
            forall|j: int| 0 <= j < counts.len() ==> #[trigger] counts@[j] <= counts@[best as int],
            forall|j: int| 0 <= j < k && j != best ==> #[trigger] counts@[j] < counts@[best as int],
        decreases counts.len() - k,
    {
        if k != best && counts[k] == counts[best] {
            proof {
                assert forall|x: int| !unique_max(counts@, x) by {
                    if unique_max(counts@, x) {
                        if x == best {
                            assert(counts@[k as int] < counts@[x]);
                        } else {
                            assert(counts@[best as int] < counts@[x]);
                        }
                    }
                }
            }
            return None;
        }
        k = k + 1;
    }
    Some(best)
}

/// The winning option of a vote: none when the quorum was not reached or nobody voted,
/// else the option with strictly the most votes, if there is one.
pub fn vote_winner(quorum_reached: bool, total_votes: usize, counts: &Vec<usize>) -> (w: Option<usize>)
    ensures
        (!quorum_reached || total_votes == 0) ==> w is None,
        (quorum_reached && total_votes > 0) ==> ((w matches Some(i) ==> unique_max(counts@, i as int)) && (w is None ==> forall|i: int| !unique_max(counts@, i))),
{
    if !quorum_reached || total_votes == 0 {
        None
    } else {
        plurality_winner(counts)
    }
}

/// At most one option can win.
pub proof fn lemma_winner_unique(counts: Seq<usize>, i: int, j: int)
    requires
        unique_max(counts, i),
        unique_max(counts, j),
    ensures
        i == j,
{
    if i != j {
        assert(counts[j] < counts[i]);
        assert(counts[i] < counts[j]);
    }
}

/// The closing time of a proposal opened at `now` for `hours` hours (0: open-ended).
pub open spec fn closing_time(now: u64, hours: u64) -> int {
    if hours == 0 {
        0
    } else {
        now + hours * 3600
    }
}

/// Computes `closing_time`; `None` when it does not fit in 64 bits.
pub fn closes_at(now: u64, hours: u64) -> (r: Option<u64>)
    ensures
        r matches Some(t) ==> t == closing_time(now, hours),
        r is None <==> closing_time(now, hours) > u64::MAX,
{
    if hours == 0 {
        Some(0)
    } else if hours > u64::MAX / 3600 || now > u64::MAX - hours * 3600 {
        None
    } else {
        Some(now + hours * 3600)
    }
}

/// The options of a new proposal from comma-separated text (trimmed, empty ones left
/// out); a `Network` error when fewer than two remain.
pub fn parse_options(options: &str) -> (r: Result<Vec<String>, CiviumError>)
    ensures
        r is Ok <==> crate::text::nonempty_trimmed(crate::text::split_on(options@, ',')).len() >= 2,
        r matches Ok(v) ==> views(v@) == crate::text::nonempty_trimmed(crate::text::split_on(options@, ',')),
        r matches Err(e) ==> e is Network,
{
    let v = crate::text::comma_list(options);
    if v.len() < 2 {
        Err(CiviumError::Network(owned("at least 2 options are required")))
    } else {
        Ok(v)
    }
}

/// Why a vote is refused, checked in this order: the proposal is not open, the choice
/// is out of range, the proposal has expired.
pub open spec fn vote_refusal(p: Proposal, choice: usize, now: u64) -> bool {
    p.status != ProposalStatus::Open || choice >= p.options@.len() || (p.closes_at > 0 && now >= p.closes_at)
}

/// Checks that a vote for option `choice` can be cast at `now`.
pub fn check_vote(proposal: &Proposal, choice: usize, now: u64) -> (r: Result<(), CiviumError>)
    ensures
        r is Ok <==> !vote_refusal(*proposal, choice, now),
        r matches Err(e) ==> e is Network,
{
    if proposal.status != ProposalStatus::Open {
        return Err(CiviumError::Network(owned("proposal is not open")));
    }
    if choice >= proposal.options.len() {
        return Err(CiviumError::Network(owned("choice out of range")));
    }
    if proposal.is_expired(now) {
        return Err(CiviumError::Network(owned("proposal has expired")));
    }
    Ok(())
}

/// The index of the first item whose identifier starts with `prefix`.
pub fn find_proposal(proposals: &Vec<Proposal>, prefix: &str) -> (r: Option<usize>)
    ensures
        r matches Some(i) ==> i < proposals@.len() && has_prefix(proposals@[i as int].id@, prefix@)
            && forall|j: int| 0 <= j < i ==> !has_prefix(#[trigger] proposals@[j].id@, prefix@),
        r is None ==> forall|j: int| 0 <= j < proposals@.len() ==> !has_prefix(#[trigger] proposals@[j].id@, prefix@),
{
    let mut i: usize = 0;
    while i < proposals.len()
        invariant
            i <= proposals.len(),
            forall|j: int| 0 <= j < i ==> !has_prefix(#[trigger] proposals@[j].id@, prefix@),
        decreases proposals.len() - i,
    {
        if starts_with(proposals[i].id.as_str(), prefix) {
            return Some(i);
        }
        i = i + 1;
    }
    None
}

/// The index of the first admin action whose identifier starts with `prefix`.
pub fn find_action(actions: &Vec<AdminAction>, prefix: &str) -> (r: Option<usize>)
    ensures
        r matches Some(i) ==> i < actions@.len() && has_prefix(actions@[i as int].id@, prefix@)
            && forall|j: int| 0 <= j < i ==> !has_prefix(#[trigger] actions@[j].id@, prefix@),
        r is None ==> forall|j: int| 0 <= j < actions@.len() ==> !has_prefix(#[trigger] actions@[j].id@, prefix@),
{
    let mut i: usize = 0;
    while i < actions.len()
        invariant
            i <= actions.len(),
            forall|j: int| 0 <= j < i ==> !has_prefix(#[trigger] actions@[j].id@, prefix@),
        decreases actions.len() - i,
    {
        if starts_with(actions[i].id.as_str(), prefix) {
            return Some(i);
        }
        i = i + 1;
    }
    None
}

/// The title of the vote opened when a majority contests an action.
pub open spec fn safeguard_title(kind: AdminActionKind) -> Seq<char> {
    "Garde-fou : "@ + kind_text(kind)
}

/// What a contest led to.
#[derive(Debug)]
pub enum ContestOutcome {
    /// The action was not active; nothing changed.
    NotContestable,
    /// The window had closed: the action is now confirmed.
    WindowClosed,
    /// The contest was recorded (or was already there); no majority yet.
    Recorded,
    /// The contest made a majority: the action is suspended and this vote is opened.
    Suspended(Proposal),
}

/// A member contests an admin action at `now`. An action that is not active cannot be
/// contested; once its window has closed it becomes confirmed; else the contest is
/// recorded, and when it makes a majority of `total_members` the action is suspended and
/// a 72-hour vote between keeping and cancelling it is opened.
pub fn contest_action(
    action: &mut AdminAction,
    voter_cid_short: &str,
    total_members: usize,
    network_cid_short: &str,
    now: u64,
) -> (r: ContestOutcome)
    requires
        now <= u64::MAX - SAFEGUARD_VOTE_SECS,
    ensures
        final(action).id == old(action).id,
        final(action).kind == old(action).kind,
        final(action).taken_at == old(action).taken_at,
        final(action).contest_window_secs == old(action).contest_window_secs,
        no_duplicates(old(action).contests@) ==> no_duplicates(final(action).contests@),
        old(action).status != AdminActionStatus::Active ==> r is NotContestable
            && final(action).status == old(action).status && final(action).contests@ == old(action).contests@,
        old(action).status == AdminActionStatus::Active && now < old(action).taken_at + old(action).contest_window_secs
            && !contains_cid(old(action).contests@, voter_cid_short@) ==> final(action).contests@.drop_last() == old(action).contests@
            && final(action).contests@.len() == old(action).contests@.len() + 1
            && final(action).contests@.last()@ == voter_cid_short@,
        old(action).status == AdminActionStatus::Active && contains_cid(old(action).contests@, voter_cid_short@)
            ==> final(action).contests@ == old(action).contests@,
        old(action).status == AdminActionStatus::Active && now >= old(action).taken_at + old(action).contest_window_secs
            ==> r is WindowClosed && final(action).status == AdminActionStatus::Confirmed
            && final(action).contests@ == old(action).contests@,
        old(action).status == AdminActionStatus::Active && now < old(action).taken_at + old(action).contest_window_secs
            ==> contains_cid(final(action).contests@, voter_cid_short@) && (if !contains_cid(old(action).contests@, voter_cid_short@)
                && !is_majority(old(action).contests@.len(), total_members as nat)
                && is_majority(final(action).contests@.len(), total_members as nat) {
                r matches ContestOutcome::Suspended(p) && {
                    &&& final(action).status == (AdminActionStatus::Suspended { proposal_id: p.id })
                    &&& p.title@ == safeguard_title(old(action).kind)
                    &&& p.options@.len() == 2
                    &&& p.options@[0]@ == "Maintenir l'action"@
                    &&& p.options@[1]@ == "Annuler l'action"@
                    &&& p.network_cid_short@ == network_cid_short@
                    &&& p.created_at == now
                    &&& p.closes_at == now + SAFEGUARD_VOTE_SECS
                    &&& p.quorum_percent == 0
                    &&& p.status == ProposalStatus::Open
                }
            } else {
                r is Recorded && final(action).status == AdminActionStatus::Active
            }),
{
    match action.status {
        AdminActionStatus::Active => {},
        _ => {
            return ContestOutcome::NotContestable;
        },
    }
    if !action.is_window_open(now) {
        action.status = AdminActionStatus::Confirmed;
        return ContestOutcome::WindowClosed;
    }
    let threshold = add_contest(action, voter_cid_short, total_members);
    if threshold {
        let mut title = String::new();
        append_str(&mut title, "Garde-fou : ");
        let k = action.kind.to_string();
        append_str(&mut title, k.as_str());
        let mut options: Vec<String> = Vec::new();
        options.push(owned("Maintenir l'action"));
        options.push(owned("Annuler l'action"));
        let p = Proposal::new(
            owned(network_cid_short),
            title,
            owned("La majorité a contesté une action de l'admin. Que décide le réseau ?"),
            options,
            owned("système"),
            now,
            now + SAFEGUARD_VOTE_SECS,
            0,
        );
        action.status = AdminActionStatus::Suspended { proposal_id: p.id.clone() };
        ContestOutcome::Suspended(p)
    } else {
        ContestOutcome::Recorded
    }
}

/// `s` without the votes of `voter` on `proposal`, in order.
pub open spec fn votes_without(s: Seq<Vote>, proposal: Seq<char>, voter: Seq<char>) -> Seq<Vote>
    decreases s.len(),
{
    if s.len() == 0 {
        Seq::empty()
    } else {
        let rest = votes_without(s.drop_last(), proposal, voter);
        if s.last().proposal_id@ == proposal && s.last().voter_cid_short@ == voter {
            rest
        } else {
            rest.push(s.last())
        }
    }
}

/// Records a vote, replacing any earlier vote of the same voter on the same proposal:
/// the other votes keep their order and the new vote comes last.
pub fn record_vote(votes: &mut Vec<Vote>, vote: Vote)
    ensures
        final(votes)@ == votes_without(old(votes)@, vote.proposal_id@, vote.voter_cid_short@).push(vote),
{
    let ghost old_votes = votes@;
    let ghost proposal = vote.proposal_id@;
    let ghost voter = vote.voter_cid_short@;
    let mut i: usize = 0;
    let ghost mut j: int = 0;
    assert(old_votes.subrange(0, 0) =~= Seq::<Vote>::empty());
    assert(old_votes.subrange(0, old_votes.len() as int) =~= old_votes);
    while i < votes.len()
        invariant
            0 <= j <= old_votes.len(),
            votes@ == votes_without(old_votes.subrange(0, j), proposal, voter) + old_votes.subrange(j, old_votes.len() as int),
            i == votes_without(old_votes.subrange(0, j), proposal, voter).len(),
            proposal == vote.proposal_id@,
            voter == vote.voter_cid_short@,
        decreases votes.len() - i,
    {
        let ghost w = votes_without(old_votes.subrange(0, j), proposal, voter);
        let ghost rest = old_votes.subrange(j, old_votes.len() as int);
        assert(votes@[i as int] == old_votes[j]);
        assert(old_votes.subrange(0, j + 1).drop_last() =~= old_votes.subrange(0, j));
        let same = str_eq(votes[i].proposal_id.as_str(), vote.proposal_id.as_str())
            && str_eq(votes[i].voter_cid_short.as_str(), vote.voter_cid_short.as_str());
        if same {
            votes.remove(i);
            assert(votes@ =~= w + old_votes.subrange(j + 1, old_votes.len() as int));
        } else {
            i = i + 1;
            assert(votes@ =~= w.push(old_votes[j]) + old_votes.subrange(j + 1, old_votes.len() as int));
        }
        proof {
            j = j + 1;
        }
    }
    assert(old_votes.subrange(j, old_votes.len() as int) =~= Seq::<Vote>::empty());
    assert(votes@ =~= votes_without(old_votes, proposal, voter));
    votes.push(vote);
}

/// A member's delegation of their vote to another member of the same network, for one
/// proposal or (without a proposal) for all of them. It can be revoked at any time.
#[derive(Debug)]
pub struct VoteDelegation {
    pub delegator_cid_short: String,
    pub delegate_cid_short: String,
    pub network_cid_short: String,
    pub proposal_id: Option<String>,
    pub created_at: u64,
}

/// Some member's short CID starts with `prefix`.
pub open spec fn has_short_with_prefix(members: Seq<MemberRecord>, prefix: Seq<char>) -> bool {
    exists|k: int| 0 <= k < members.len() && has_prefix(#[trigger] members[k].cid_short@, prefix)
}

/// `k` is the first member whose short CID starts with `prefix`.
pub open spec fn first_with_prefix(members: Seq<MemberRecord>, prefix: Seq<char>, k: int) -> bool {
    &&& 0 <= k < members.len()
    &&& has_prefix(members[k].cid_short@, prefix)
    &&& forall|j: int| 0 <= j < k ==> !has_prefix(#[trigger] members[j].cid_short@, prefix)
}

/// The delegator (a member, by full CID) delegates their vote at `now` to the first
/// member whose short CID starts with `to_prefix`, for `proposal_id` or for all
/// proposals. A `Network` error when the delegator is not a member, names itself, or no
/// member matches.
pub fn delegate_vote(
    members: &Vec<MemberRecord>,
    delegator: &Cid,
    to_prefix: &str,
    network_cid_short: &str,
    proposal_id: Option<String>,
    now: u64,
) -> (r: Result<VoteDelegation, CiviumError>)
    ensures
        r is Ok <==> (has_member_full(members@, delegator.full_view()) && delegator.short_view() != to_prefix@
            && has_short_with_prefix(members@, to_prefix@)),
        r matches Ok(d) ==> {
            &&& d.delegator_cid_short@ == delegator.short_view()
            &&& exists|k: int| first_with_prefix(members@, to_prefix@, k) && d.delegate_cid_short == #[trigger] members@[k].cid_short
            &&& d.network_cid_short@ == network_cid_short@
            &&& d.proposal_id == proposal_id
            &&& d.created_at == now
        },
        r matches Err(e) ==> e is Network,
{
    if !member_with_full(members, delegator.full()) {
        return Err(CiviumError::Network(owned("you are not a member of this network")));
    }
    if str_eq(delegator.short(), to_prefix) {
        return Err(CiviumError::Network(owned("cannot delegate to yourself")));
    }
    let mut k: usize = 0;
    while k < members.len()
        invariant
            k <= members.len(),
            has_member_full(members@, delegator.full_view()),
            delegator.short_view() != to_prefix@,
            forall|j: int| 0 <= j < k ==> !has_prefix(#[trigger] members@[j].cid_short@, to_prefix@),
        decreases members.len() - k,
    {
        if starts_with(members[k].cid_short.as_str(), to_prefix) {
            let d = VoteDelegation {
                delegator_cid_short: owned(delegator.short()),
                delegate_cid_short: members[k].cid_short.clone(),
                network_cid_short: owned(network_cid_short),
                proposal_id,
                created_at: now,
            };
            assert(first_with_prefix(members@, to_prefix@, k as int));
            assert(has_short_with_prefix(members@, to_prefix@));
            return Ok(d);
        }
        k = k + 1;
    }
    Err(CiviumError::Network(owned("member not found in this network")))
}

/// The text under which a delegation's proposal is keyed: the identifier, or empty for
/// a delegation that covers every proposal.
pub open spec fn proposal_key(p: Option<String>) -> Seq<char> {
    match p {
        Some(s) => s@,
        None => Seq::empty(),
    }
}

/// The text under which a revocation's proposal is keyed (see `proposal_key`).
pub open spec fn proposal_ref_key(p: Option<&str>) -> Seq<char> {
    match p {
        Some(s) => s@,
        None => Seq::empty(),
    }
}

/// `d` is the delegation of `delegator` in `network` keyed by `proposal`.
pub open spec fn delegation_matches(d: VoteDelegation, network: Seq<char>, delegator: Seq<char>, proposal: Seq<char>) -> bool {
    d.network_cid_short@ == network && d.delegator_cid_short@ == delegator && proposal_key(d.proposal_id) == proposal
}

/// `s` without the delegations that match, in order.
pub open spec fn delegations_without(s: Seq<VoteDelegation>, network: Seq<char>, delegator: Seq<char>, proposal: Seq<char>) -> Seq<VoteDelegation>
    decreases s.len(),
{
    if s.len() == 0 {
        Seq::empty()
    } else {
        let rest = delegations_without(s.drop_last(), network, delegator, proposal);
        if delegation_matches(s.last(), network, delegator, proposal) {
            rest
        } else {
            rest.push(s.last())
        }
    }
}

fn opt_key(p: Option<&str>) -> (r: &str)
    ensures
        r@ == proposal_ref_key(p),
{
    proof {
        reveal_strlit("");
    }
    match p {
        Some(s) => s,
        None => "",
    }
}

/// Revokes the delegation of `delegator` in `network` for `proposal_id` (without a
/// proposal: the network-wide one): exactly the matching records are removed, the others
/// keep their order.
pub fn revoke_delegation(delegations: &mut Vec<VoteDelegation>, network: &str, delegator: &str, proposal_id: Option<&str>)
    ensures
        final(delegations)@ == delegations_without(old(delegations)@, network@, delegator@, proposal_ref_key(proposal_id)),
{
    let ghost old_ds = delegations@;
    let ghost key = proposal_ref_key(proposal_id);
    let pid = opt_key(proposal_id);
    let mut i: usize = 0;
    let ghost mut j: int = 0;
    assert(old_ds.subrange(0, 0) =~= Seq::<VoteDelegation>::empty());
    assert(old_ds.subrange(0, old_ds.len() as int) =~= old_ds);
    while i < delegations.len()
        invariant
            0 <= j <= old_ds.len(),
            delegations@ == delegations_without(old_ds.subrange(0, j), network@, delegator@, key) + old_ds.subrange(j, old_ds.len() as int),
            i == delegations_without(old_ds.subrange(0, j), network@, delegator@, key).len(),
            pid@ == key,
        decreases delegations.len() - i,
    {
        let ghost w = delegations_without(old_ds.subrange(0, j), network@, delegator@, key);
        assert(delegations@[i as int] == old_ds[j]);
        assert(old_ds.subrange(0, j + 1).drop_last() =~= old_ds.subrange(0, j));
        proof {
            reveal_strlit("");
        }
        let d_pid: &str = match &delegations[i].proposal_id {
            Some(s) => s.as_str(),
            None => "",
        };
        let same = str_eq(delegations[i].network_cid_short.as_str(), network)
            && str_eq(delegations[i].delegator_cid_short.as_str(), delegator)
            && str_eq(d_pid, pid);
        assert(d_pid@ == proposal_key(old_ds[j].proposal_id));
        assert(same == delegation_matches(old_ds[j], network@, delegator@, key));
        if same {
            delegations.remove(i);
            assert(delegations@ =~= w + old_ds.subrange(j + 1, old_ds.len() as int));
        } else {
            i = i + 1;
            assert(delegations@ =~= w.push(old_ds[j]) + old_ds.subrange(j + 1, old_ds.len() as int));
        }
        proof {
            j = j + 1;
        }
    }
    assert(old_ds.subrange(j, old_ds.len() as int) =~= Seq::<VoteDelegation>::empty());
    assert(delegations@ =~= delegations_without(old_ds, network@, delegator@, key));
}

/// Records a delegation, replacing the delegator's earlier one in the same network for
/// the same proposal (or the earlier network-wide one).
pub fn record_delegation(delegations: &mut Vec<VoteDelegation>, d: VoteDelegation)
    ensures
        final(delegations)@ == delegations_without(
            old(delegations)@,
            d.network_cid_short@,
            d.delegator_cid_short@,
            proposal_key(d.proposal_id),
        ).push(d),
{
    let key: Option<&str> = match &d.proposal_id {
        Some(s) => Some(s.as_str()),
        None => None,
    };
    assert(proposal_ref_key(key) == proposal_key(d.proposal_id));
    revoke_delegation(delegations, d.network_cid_short.as_str(), d.delegator_cid_short.as_str(), key);
    delegations.push(d);
}

/// The quorum of a vote: none is asked (`quorum_percent` 0), or the votes cast make at
/// least `quorum_percent` per cent of the members (exactly, in integers).
pub open spec fn quorum_met(total_votes: nat, total_members: nat, quorum_percent: nat) -> bool {
    quorum_percent == 0 || (total_members > 0 && total_votes * 100 >= quorum_percent * total_members)
}

/// Whether the votes cast reach the proposal's quorum (see `quorum_met`).
pub fn quorum_reached(total_votes: usize, total_members: usize, quorum_percent: u8) -> (b: bool)
    ensures
        b == quorum_met(total_votes as nat, total_members as nat, quorum_percent as nat),
{
    if quorum_percent == 0 {
        return true;
    }
    if total_members == 0 {
        return false;
    }
    assert(total_votes as u128 * 100 <= u128::MAX && quorum_percent as u128 * total_members as u128 <= u128::MAX) by (nonlinear_arith)
        requires
            quorum_percent < 256,
            total_votes <= u64::MAX,
            total_members <= u64::MAX,
    ;
    let v: u128 = total_votes as u128 * 100;
    let m: u128 = quorum_percent as u128 * total_members as u128;
    v >= m
}

/// One vote per member and proposal: after `record_vote`, the votes other than the new
/// one hold no vote of the same voter on the same proposal.
pub proof fn lemma_recorded_vote_is_the_only_one(s: Seq<Vote>, proposal: Seq<char>, voter: Seq<char>)
    ensures
        forall|i: int| 0 <= i < votes_without(s, proposal, voter).len() ==> !(#[trigger] votes_without(s, proposal, voter)[i].proposal_id@ == proposal
            && votes_without(s, proposal, voter)[i].voter_cid_short@ == voter),
    decreases s.len(),
{
    if s.len() > 0 {
        lemma_recorded_vote_is_the_only_one(s.drop_last(), proposal, voter);
        let rest = votes_without(s.drop_last(), proposal, voter);
        let w = votes_without(s, proposal, voter);
        assert forall|i: int| 0 <= i < w.len() implies !(#[trigger] w[i].proposal_id@ == proposal && w[i].voter_cid_short@ == voter) by {
            if i < rest.len() {
                assert(w[i] == rest[i]);
            }
        }
    }
}

/// A delegation can be revoked at any time: after `revoke_delegation`, no delegation of
/// that delegator in that network for that proposal remains.
pub proof fn lemma_revoked_delegation_is_gone(s: Seq<VoteDelegation>, network: Seq<char>, delegator: Seq<char>, proposal: Seq<char>)
    ensures
        forall|i: int| 0 <= i < delegations_without(s, network, delegator, proposal).len()
            ==> !delegation_matches(#[trigger] delegations_without(s, network, delegator, proposal)[i], network, delegator, proposal),
    decreases s.len(),
{
    if s.len() > 0 {
        lemma_revoked_delegation_is_gone(s.drop_last(), network, delegator, proposal);
        let rest = delegations_without(s.drop_last(), network, delegator, proposal);
        let w = delegations_without(s, network, delegator, proposal);
        assert forall|i: int| 0 <= i < w.len() implies !delegation_matches(#[trigger] w[i], network, delegator, proposal) by {
            if i < rest.len() {
                assert(w[i] == rest[i]);
            }
        }
    }
}

/// A vote is refused exactly when the proposal is not open, the choice is not one of its
/// options, or the proposal has a closing time (non-zero) that `now` has reached. In
/// particular an open-ended proposal (closing time 0) never refuses a vote for expiry.
pub proof fn lemma_vote_refusal_law(p: Proposal, choice: usize, now: u64)
    ensures
        vote_refusal(p, choice, now) <==> (p.status != ProposalStatus::Open || choice >= p.options@.len()
            || (p.closes_at != 0 && now >= p.closes_at)),
        p.status == ProposalStatus::Open && choice < p.options@.len() && p.closes_at == 0 ==> !vote_refusal(p, choice, now),
        p.status == ProposalStatus::Open && choice < p.options@.len() && now < p.closes_at ==> !vote_refusal(p, choice, now),
{
}

/// Revoking keeps every other delegation: each record of `s` that is not the
/// delegator's in that network under exactly that proposal key (a network-wide one has
/// the empty key) is still there, and none that is remains.
pub proof fn lemma_revoke_keeps_others(s: Seq<VoteDelegation>, network: Seq<char>, delegator: Seq<char>, proposal: Seq<char>)
    ensures
        forall|i: int| 0 <= i < s.len() && !(s[i].network_cid_short@ == network && s[i].delegator_cid_short@ == delegator
            && proposal_key(s[i].proposal_id) == proposal) ==> #[trigger] delegations_without(s, network, delegator, proposal).contains(s[i]),
        forall|i: int| 0 <= i < delegations_without(s, network, delegator, proposal).len() ==> {
            let d = #[trigger] delegations_without(s, network, delegator, proposal)[i];
            &&& s.contains(d)
            &&& !(d.network_cid_short@ == network && d.delegator_cid_short@ == delegator && proposal_key(d.proposal_id) == proposal)
        },
    decreases s.len(),
{
    if s.len() > 0 {
        let t = s.drop_last();
        lemma_revoke_keeps_others(t, network, delegator, proposal);
        let rest = delegations_without(t, network, delegator, proposal);
        let w = delegations_without(s, network, delegator, proposal);
        assert forall|i: int| 0 <= i < s.len() && !(s[i].network_cid_short@ == network && s[i].delegator_cid_short@ == delegator
            && proposal_key(s[i].proposal_id) == proposal) implies #[trigger] w.contains(s[i]) by {
            if i < t.len() {
                assert(t[i] == s[i]);
                assert(rest.contains(t[i]));
                let k = choose|k: int| 0 <= k < rest.len() && rest[k] == t[i];
                assert(w[k] == rest[k]);
            } else {
                assert(w[w.len() - 1] == s[i]);
            }
        }
        assert forall|i: int| 0 <= i < w.len() implies ({
            let d = #[trigger] w[i];
            &&& s.contains(d)
            &&& !(d.network_cid_short@ == network && d.delegator_cid_short@ == delegator && proposal_key(d.proposal_id) == proposal)
        }) by {
            if i < rest.len() {
                assert(w[i] == rest[i]);
                assert(t.contains(rest[i]));
                let k = choose|k: int| 0 <= k < t.len() && t[k] == rest[i];
                assert(s[k] == t[k]);
            } else {
                assert(w[i] == s.last());
                assert(s[s.len() - 1] == s.last());
            }
        }
    }
}

} // verus!
