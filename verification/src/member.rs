//! Members of a network: trust circles, roles, admitted members and pending requests.
use vstd::prelude::*;
use crate::text::{owned, str_eq};

verus! {

/// Network-wide trust circle of a member (0: directory, 1: acquaintance, 2: trust).
#[derive(Debug, Clone, Copy, PartialEq, Eq, PartialOrd, Ord, Structural)]
pub enum TrustCircle {
    Annuaire,
    Connaissance,
    Confiance,
}

/// The number of a trust circle.
pub open spec fn circle_level(c: TrustCircle) -> u8 {
    match c {
        TrustCircle::Annuaire => 0,
        TrustCircle::Connaissance => 1,
        TrustCircle::Confiance => 2,
    }
}

impl TrustCircle {
    /// The circle of number `v`, if `v` is 0, 1 or 2.
    pub fn from_u8(v: u8) -> (r: Option<TrustCircle>)
        ensures
            r is Some <==> v <= 2,
            r matches Some(c) ==> circle_level(c) == v,
    {
        if v == 0 {
            Some(TrustCircle::Annuaire)
        } else if v == 1 {
            Some(TrustCircle::Connaissance)
        } else if v == 2 {
            Some(TrustCircle::Confiance)
        } else {
            None
        }
    }

    /// The number of this circle.
    pub fn level(&self) -> (v: u8)
        ensures
            v == circle_level(*self),
    {
        match self {
            TrustCircle::Annuaire => 0,
            TrustCircle::Connaissance => 1,
            TrustCircle::Confiance => 2,
        }
    }

    /// The human-readable label of this circle.
    pub fn label(&self) -> (s: &'static str)
        ensures
            *self == TrustCircle::Annuaire ==> s@ == "Annuaire (0)"@,
            *self == TrustCircle::Connaissance ==> s@ == "Connaissance (1)"@,
            *self == TrustCircle::Confiance ==> s@ == "Confiance (2)"@,
    {
        match self {
            TrustCircle::Annuaire => "Annuaire (0)",
            TrustCircle::Connaissance => "Connaissance (1)",
            TrustCircle::Confiance => "Confiance (2)",
        }
    }

    /// The displayed form of the circle (its label).
    pub fn to_string(&self) -> (s: String)
        ensures
            *self == TrustCircle::Annuaire ==> s@ == "Annuaire (0)"@,
            *self == TrustCircle::Connaissance ==> s@ == "Connaissance (1)"@,
            *self == TrustCircle::Confiance ==> s@ == "Confiance (2)"@,
    {
        owned(self.label())
    }

    /// Parses `0`/`annuaire`, `1`/`connaissance` or `2`/`confiance`.
    pub fn from_str(s: &str) -> (r: Result<TrustCircle, String>)
        ensures
            (s@ == "0"@ || s@ == "annuaire"@) <==> r == Ok::<TrustCircle, String>(
                TrustCircle::Annuaire,
            ),
            (s@ == "1"@ || s@ == "connaissance"@) <==> r == Ok::<TrustCircle, String>(
                TrustCircle::Connaissance,
            ),
            (s@ == "2"@ || s@ == "confiance"@) <==> r == Ok::<TrustCircle, String>(
                TrustCircle::Confiance,
            ),
    {
        proof {
            reveal_strlit("0");
            reveal_strlit("1");
            reveal_strlit("2");
            reveal_strlit("annuaire");
            reveal_strlit("connaissance");
            reveal_strlit("confiance");
            assert("0"@[0] != "1"@[0] && "0"@[0] != "2"@[0] && "1"@[0] != "2"@[0]);
            assert("annuaire"@[0] != "connaissance"@[0] && "annuaire"@[0] != "confiance"@[0]);
            assert("connaissance"@.len() != "confiance"@.len());
        }
        if str_eq(s, "0") || str_eq(s, "annuaire") {
            Ok(TrustCircle::Annuaire)
        } else if str_eq(s, "1") || str_eq(s, "connaissance") {
            Ok(TrustCircle::Connaissance)
        } else if str_eq(s, "2") || str_eq(s, "confiance") {
            Ok(TrustCircle::Confiance)
        } else {
            Err(owned("unknown circle — use 0, 1 or 2"))
        }
    }
}

/// Role of a member within a network.
#[derive(Debug, Clone, Copy, PartialEq, Eq, Structural)]
pub enum MemberRole {
    Admin,
    Member,
}

impl MemberRole {
    /// `admin` or `member`.
    pub fn to_string(&self) -> (s: String)
        ensures
            *self == MemberRole::Admin ==> s@ == "admin"@,
            *self == MemberRole::Member ==> s@ == "member"@,
    {
        match self {
            MemberRole::Admin => owned("admin"),
            MemberRole::Member => owned("member"),
        }
    }

    /// Parses `admin` or `member`.
    pub fn from_str(s: &str) -> (r: Result<MemberRole, String>)
        ensures
            s@ == "admin"@ <==> r == Ok::<MemberRole, String>(MemberRole::Admin),
            s@ == "member"@ <==> r == Ok::<MemberRole, String>(MemberRole::Member),
    {
        proof {
            reveal_strlit("admin");
            reveal_strlit("member");
            assert("admin"@ != "member"@) by {
                assert("admin"@.len() != "member"@.len());
            }
        }
        if str_eq(s, "admin") {
            Ok(MemberRole::Admin)
        } else if str_eq(s, "member") {
            Ok(MemberRole::Member)
        } else {
            Err(owned("unknown role — use admin or member"))
        }
    }
}

/// A fully admitted member of a network.
#[derive(Debug)]
pub struct MemberRecord {
    pub cid_short: String,
    pub cid_full: String,
    pub display_name: String,
    pub circle: TrustCircle,
    pub role: MemberRole,
    pub joined_at: u64,
    pub is_minor: bool,
    pub pub_key_b58: Option<String>,
}

/// A pending join request waiting for admission.
#[derive(Debug)]
pub struct PendingRecord {
    pub cid_short: String,
    pub cid_full: String,
    pub display_name: String,
    pub requested_at: u64,
    /// Nonce of the invitation used (against replay).
    pub invite_nonce_b58: String,
    pub pub_key_b58: Option<String>,
}

/// A copy of an optional string.
pub fn copy_opt_string(s: &Option<String>) -> (r: Option<String>)
    ensures
        r == *s,
{
    match s {
        Some(t) => Some(t.clone()),
        None => None,
    }
}

impl MemberRecord {
    /// An exact copy of this record.
    pub fn copy(&self) -> (r: MemberRecord)
        ensures
            r == *self,
    {
        MemberRecord {
            cid_short: self.cid_short.clone(),
            cid_full: self.cid_full.clone(),
            display_name: self.display_name.clone(),
            circle: self.circle,
            role: self.role,
            joined_at: self.joined_at,
            is_minor: self.is_minor,
            pub_key_b58: copy_opt_string(&self.pub_key_b58),
        }
    }
}

impl PendingRecord {
    /// An exact copy of this record.
    pub fn copy(&self) -> (r: PendingRecord)
        ensures
            r == *self,
    {
        PendingRecord {
            cid_short: self.cid_short.clone(),
            cid_full: self.cid_full.clone(),
            display_name: self.display_name.clone(),
            requested_at: self.requested_at,
            invite_nonce_b58: self.invite_nonce_b58.clone(),
            pub_key_b58: copy_opt_string(&self.pub_key_b58),
        }
    }
}

} // verus!
