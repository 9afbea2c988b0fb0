//! The activity feed of a network, its notifications, calendar events and the
//! ActivityPub federation records.
use vstd::prelude::*;
use crate::entropy::{unix_now, uuid_v4};
use crate::text::owned;

verus! {

/// What happened in a network.
#[derive(Debug, Clone, Copy, PartialEq, Eq, Structural)]
pub enum ActivityKind {
    MemberJoined,
    MemberLeft,
    MessagePosted,
    DirectMessageSent,
    ProposalCreated,
    VoteCast,
    AdminActionTaken,
    AdminActionContested,
    ConnectionEstablished,
    AgendaEventCreated,
    DocumentCreated,
    MessageReported,
}

/// The displayed name of an activity kind.
pub open spec fn activity_text(k: ActivityKind) -> Seq<char> {
    match k {
        ActivityKind::MemberJoined => "member_joined"@,
        ActivityKind::MemberLeft => "member_left"@,
        ActivityKind::MessagePosted => "message_posted"@,
        ActivityKind::DirectMessageSent => "direct_message_sent"@,
        ActivityKind::ProposalCreated => "proposal_created"@,
        ActivityKind::VoteCast => "vote_cast"@,
        ActivityKind::AdminActionTaken => "admin_action_taken"@,
        ActivityKind::AdminActionContested => "admin_action_contested"@,
        ActivityKind::ConnectionEstablished => "connection_established"@,
        ActivityKind::AgendaEventCreated => "agenda_event_created"@,
        ActivityKind::DocumentCreated => "document_created"@,
        ActivityKind::MessageReported => "message_reported"@,
    }
}

impl ActivityKind {
    /// `member_joined`, `message_posted`, …
    pub fn to_string(&self) -> (s: String)
        ensures
            s@ == activity_text(*self),
    {
        match self {
            ActivityKind::MemberJoined => owned("member_joined"),
            ActivityKind::MemberLeft => owned("member_left"),
            ActivityKind::MessagePosted => owned("message_posted"),
            ActivityKind::DirectMessageSent => owned("direct_message_sent"),
            ActivityKind::ProposalCreated => owned("proposal_created"),
            ActivityKind::VoteCast => owned("vote_cast"),
            ActivityKind::AdminActionTaken => owned("admin_action_taken"),
            ActivityKind::AdminActionContested => owned("admin_action_contested"),
            ActivityKind::ConnectionEstablished => owned("connection_established"),
            ActivityKind::AgendaEventCreated => owned("agenda_event_created"),
            ActivityKind::DocumentCreated => owned("document_created"),
            ActivityKind::MessageReported => owned("message_reported"),
        }
    }
}

/// An event of the activity feed.
#[derive(Debug)]
pub struct ActivityEvent {
    pub id: String,
    pub network_cid_short: String,
    pub kind: ActivityKind,
    pub actor_cid_short: String,
    pub summary: String,
    pub occurred_at: u64,
}

impl ActivityEvent {
    /// An event with identifier `id`, occurring at `now`.
    pub fn new_at(id: String, network_cid_short: String, kind: ActivityKind, actor_cid_short: String, summary: String, now: u64) -> (e: ActivityEvent)
        ensures
            e == (ActivityEvent { id, network_cid_short, kind, actor_cid_short, summary, occurred_at: now }),
    {
        ActivityEvent { id, network_cid_short, kind, actor_cid_short, summary, occurred_at: now }
    }

    /// An event occurring now, under a random UUID.
    pub fn new(network_cid_short: String, kind: ActivityKind, actor_cid_short: String, summary: String) -> (e: ActivityEvent)
        ensures
            e.network_cid_short == network_cid_short,
            e.kind == kind,
            e.actor_cid_short == actor_cid_short,
            e.summary == summary,
    {
        let now = unix_now();
        Self::new_at(uuid_v4(), network_cid_short, kind, actor_cid_short, summary, now)
    }
}

/// A notification of an event to a member.
#[derive(Debug)]
pub struct Notification {
    pub id: String,
    pub network_cid_short: String,
    pub source_event_id: String,
    pub target_cid_short: String,
    pub read: bool,
    pub created_at: u64,
}

impl Notification {
    /// An unread notification with identifier `id`, created at `now`.
    pub fn new_at(id: String, network_cid_short: String, source_event_id: String, target_cid_short: String, now: u64) -> (n: Notification)
        ensures
            n == (Notification { id, network_cid_short, source_event_id, target_cid_short, read: false, created_at: now }),
    {
        Notification { id, network_cid_short, source_event_id, target_cid_short, read: false, created_at: now }
    }

    /// An unread notification created now, under a random UUID.
    pub fn new(network_cid_short: String, source_event_id: String, target_cid_short: String) -> (n: Notification)
        ensures
            n.network_cid_short == network_cid_short,
            n.source_event_id == source_event_id,
            n.target_cid_short == target_cid_short,
            !n.read,
    {
        let now = unix_now();
        Self::new_at(uuid_v4(), network_cid_short, source_event_id, target_cid_short, now)
    }
}

/// An event of a network's shared calendar.
#[derive(Debug)]
pub struct AgendaEvent {
    pub id: String,
    pub network_cid_short: String,
    pub title: String,
    pub description: String,
    pub start_at: u64,
    pub end_at: Option<u64>,
    pub recurrence: Option<String>,
    pub location: Option<String>,
    pub created_by: String,
    pub created_at: u64,
    pub updated_at: u64,
}

impl AgendaEvent {
    /// An event with identifier `id`, created at `now`, without recurrence.
    pub fn new_at(
        id: String,
        network_cid_short: String,
        title: String,
        description: String,
        start_at: u64,
        end_at: Option<u64>,
        location: Option<String>,
        created_by: String,
        now: u64,
    ) -> (e: AgendaEvent)
        ensures
            e == (AgendaEvent {
                id,
                network_cid_short,
                title,
                description,
                start_at,
                end_at,
                recurrence: None,
                location,
                created_by,
                created_at: now,
                updated_at: now,
            }),
    {
        AgendaEvent {
            id,
            network_cid_short,
            title,
            description,
            start_at,
            end_at,
            recurrence: None,
            location,
            created_by,
            created_at: now,
            updated_at: now,
        }
    }

    /// An event created now under a random UUID, without recurrence.
    pub fn new(
        network_cid_short: String,
        title: String,
        description: String,
        start_at: u64,
        end_at: Option<u64>,
        location: Option<String>,
        created_by: String,
    ) -> (e: AgendaEvent)
        ensures
            e.network_cid_short == network_cid_short,
            e.title == title,
            e.description == description,
            e.start_at == start_at,
            e.end_at == end_at,
            e.recurrence is None,
            e.location == location,
            e.created_by == created_by,
            e.created_at == e.updated_at,
    {
        let now = unix_now();
        Self::new_at(uuid_v4(), network_cid_short, title, description, start_at, end_at, location, created_by, now)
    }
}

/// ActivityPub federation state of a network.
#[derive(Debug)]
pub struct ApStatus {
    pub enabled: bool,
    pub actor_url: Option<String>,
    pub followers_count: usize,
}

/// A follower of a network's ActivityPub actor.
#[derive(Debug)]
pub struct ApFollower {
    pub actor_url: String,
    pub inbox_url: String,
    pub shared_inbox: Option<String>,
    pub followed_at: u64,
}

/// A post published through ActivityPub.
#[derive(Debug)]
pub struct ApPost {
    pub id: i64,
    pub network_cid: String,
    pub note_id: String,
    pub content: String,
    pub ap_activity_id: Option<String>,
    pub posted_at: u64,
}

/// The outcome of publishing a post.
#[derive(Debug)]
pub struct ApPostResult {
    pub note_id: String,
    pub actor_url: String,
    pub delivered_to: u32,
}

} // verus!
