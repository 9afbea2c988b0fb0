//! Plain records handed to the mobile bindings.
use vstd::prelude::*;
use crate::governance::{Proposal, ProposalStatus};

verus! {

/// The identity as the mobile bindings show it (with its secret, for backup).
#[derive(Debug)]
pub struct IdentityInfo {
    pub cid_short: String,
    pub cid_full: String,
    pub secret_b58: String,
}

/// A network as the mobile bindings show it.
#[derive(Debug)]
pub struct NetworkInfo {
    pub cid_short: String,
    pub name: String,
    pub member_count: u32,
}

/// A message as the mobile bindings show it.
#[derive(Debug)]
pub struct MessageInfo {
    pub id: String,
    pub author_cid_short: String,
    pub body: String,
    pub sent_at: u64,
    pub is_direct: bool,
}

/// A document as the mobile bindings show it.
#[derive(Debug)]
pub struct DocumentInfo {
    pub id: String,
    pub title: String,
    pub created_by: String,
    pub created_at: u64,
    pub updated_at: u64,
}

/// A calendar event as the mobile bindings show it.
#[derive(Debug)]
pub struct AgendaEventInfo {
    pub id: String,
    pub title: String,
    pub description: String,
    pub start_at: u64,
    pub created_by: String,
}

/// Errors of the mobile bindings.
#[derive(Debug)]
pub enum CiviumFfiError {
    IdentityAlreadyExists,
    NetworkNotFound(String),
    Pairing(String),
    Core(String),
    Db(String),
}

impl CiviumFfiError {
    /// The message of the error.
    pub fn to_string(&self) -> (s: String)
        ensures
            *self is IdentityAlreadyExists ==> s@ == "identité déjà présente"@,
            *self matches CiviumFfiError::NetworkNotFound(m) ==> s@ == "réseau introuvable : "@ + m@,
            *self matches CiviumFfiError::Pairing(m) ==> s@ == "jumelage : "@ + m@,
            *self matches CiviumFfiError::Core(m) ==> s@ == m@,
            *self matches CiviumFfiError::Db(m) ==> s@ == "base de données : "@ + m@,
    {
        let mut s = String::new();
        match self {
            CiviumFfiError::IdentityAlreadyExists => {
                crate::text::append_str(&mut s, "identité déjà présente");
            },
            CiviumFfiError::NetworkNotFound(m) => {
                crate::text::append_str(&mut s, "réseau introuvable : ");
                crate::text::append_str(&mut s, m.as_str());
            },
            CiviumFfiError::Pairing(m) => {
                crate::text::append_str(&mut s, "jumelage : ");
                crate::text::append_str(&mut s, m.as_str());
            },
            CiviumFfiError::Core(m) => {
                crate::text::append_str(&mut s, m.as_str());
            },
            CiviumFfiError::Db(m) => {
                crate::text::append_str(&mut s, "base de données : ");
                crate::text::append_str(&mut s, m.as_str());
            },
        }
        s
    }
}

/// A proposal as the mobile bindings show it.
#[derive(Debug)]
pub struct ProposalInfo {
    pub id: String,
    pub title: String,
    pub description: String,
    pub options: Vec<String>,
    pub created_by: String,
    pub created_at: u64,
    pub closes_at: u64,
    pub status: String,
}

/// The record of a proposal, its status written `open`, `closed` or `cancelled`.
pub fn proposal_to_info(p: Proposal) -> (i: ProposalInfo)
    ensures
        i.id == p.id,
        i.title == p.title,
        i.description == p.description,
        i.options == p.options,
        i.created_by == p.created_by,
        i.created_at == p.created_at,
        i.closes_at == p.closes_at,
        p.status == ProposalStatus::Open ==> i.status@ == "open"@,
        p.status == ProposalStatus::Closed ==> i.status@ == "closed"@,
        p.status == ProposalStatus::Cancelled ==> i.status@ == "cancelled"@,
{
    let status = p.status.to_string();
    ProposalInfo {
        id: p.id,
        title: p.title,
        description: p.description,
        options: p.options,
        created_by: p.created_by,
        created_at: p.created_at,
        closes_at: p.closes_at,
        status,
    }
}

} // verus!
