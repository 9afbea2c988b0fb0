//! Errors produced by Civium core operations.
use vstd::prelude::*;
use crate::text::append_str;

verus! {

/// All errors produced by Civium core operations; each carries a human-readable message.
#[derive(Debug)]
pub enum CiviumError {
    Identity(String),
    Network(String),
    Invitation(String),
    Node(String),
    Crypto(String),
    Messaging(String),
    RateLimited(String),
    Io(String),
}

/// The displayed text of an error: its category, a colon, and its message.
pub open spec fn error_text(e: CiviumError) -> Seq<char> {
    match e {
        CiviumError::Identity(m) => "identity error: "@ + m@,
        CiviumError::Network(m) => "network error: "@ + m@,
        CiviumError::Invitation(m) => "invitation error: "@ + m@,
        CiviumError::Node(m) => "node error: "@ + m@,
        CiviumError::Crypto(m) => "crypto error: "@ + m@,
        CiviumError::Messaging(m) => "messaging error: "@ + m@,
        CiviumError::RateLimited(m) => "rate limited: "@ + m@,
        CiviumError::Io(m) => "IO error: "@ + m@,
    }
}

impl CiviumError {
    /// The displayed text of the error.
    pub fn to_string(&self) -> (s: String)
        ensures
            s@ == error_text(*self),
    {
        let mut s = String::new();
        match self {
            CiviumError::Identity(m) => {
                append_str(&mut s, "identity error: ");
                append_str(&mut s, m.as_str());
            },
            CiviumError::Network(m) => {
                append_str(&mut s, "network error: ");
                append_str(&mut s, m.as_str());
            },
            CiviumError::Invitation(m) => {
                append_str(&mut s, "invitation error: ");
                append_str(&mut s, m.as_str());
            },
            CiviumError::Node(m) => {
                append_str(&mut s, "node error: ");
                append_str(&mut s, m.as_str());
            },
            CiviumError::Crypto(m) => {
                append_str(&mut s, "crypto error: ");
                append_str(&mut s, m.as_str());
            },
            CiviumError::Messaging(m) => {
                append_str(&mut s, "messaging error: ");
                append_str(&mut s, m.as_str());
            },
            CiviumError::RateLimited(m) => {
                append_str(&mut s, "rate limited: ");
                append_str(&mut s, m.as_str());
            },
            CiviumError::Io(m) => {
                append_str(&mut s, "IO error: ");
                append_str(&mut s, m.as_str());
            },
        }
        s
    }
}

} // verus!
