//! Plain records handed to the desktop and mobile front ends.
use vstd::prelude::*;
use crate::member::{MemberRecord, MemberRole, PendingRecord, circle_level};
use crate::text::owned;

verus! {

/// The identity as a front end shows it (with its secret, for backup).
#[derive(Debug)]
pub struct IdentityInfo {
    pub cid_short: String,
    pub cid_full: String,
    pub secret_b58: String,
}

/// A network as a front end shows it.
#[derive(Debug)]
pub struct NetworkInfo {
    pub cid_short: String,
    pub cid_full: String,
    pub name: String,
    pub member_count: usize,
}

/// A member as a front end shows it.
#[derive(Debug)]
pub struct MemberInfo {
    pub cid_short: String,
    pub display_name: String,
    pub circle: u8,
    pub role: String,
}

/// A pending request as a front end shows it.
#[derive(Debug)]
pub struct PendingMemberInfo {
    pub cid_short: String,
    pub display_name: String,
    pub requested_at: u64,
}

impl MemberInfo {
    /// The record of a member: its circle as a number, its role as `admin` or `member`.
    pub fn from_record(m: &MemberRecord) -> (i: MemberInfo)
        ensures
            i.cid_short == m.cid_short,
            i.display_name == m.display_name,
            i.circle == circle_level(m.circle),
            m.role == MemberRole::Admin ==> i.role@ == "admin"@,
            m.role == MemberRole::Member ==> i.role@ == "member"@,
    {
        MemberInfo {
            cid_short: m.cid_short.clone(),
            display_name: m.display_name.clone(),
            circle: m.circle.level(),
            role: m.role.to_string(),
        }
    }
}

impl PendingMemberInfo {
    /// The record of a pending request.
    pub fn from_record(p: &PendingRecord) -> (i: PendingMemberInfo)
        ensures
            i.cid_short == p.cid_short,
            i.display_name == p.display_name,
            i.requested_at == p.requested_at,
    {
        PendingMemberInfo { cid_short: p.cid_short.clone(), display_name: p.display_name.clone(), requested_at: p.requested_at }
    }
}

} // verus!
