//! The client SDK's configuration and the plain records it hands to its users.
use vstd::prelude::*;
use crate::encoding::bs58_text;
use crate::identity::{CiviumKeypair, cid_short_of};

verus! {

/// Configuration of a client: where its data lives.
#[derive(Debug)]
pub struct ClientConfig {
    data_dir: String,
}

/// Builds a `ClientConfig`.
#[derive(Debug)]
pub struct ClientConfigBuilder {
    data_dir: Option<String>,
}

impl ClientConfig {
    /// The data directory.
    pub closed spec fn data_dir_view(&self) -> Seq<char> {
        self.data_dir@
    }

    /// A builder with nothing set.
    pub fn builder() -> (b: ClientConfigBuilder)
        ensures
            b.data_dir_view() is None,
    {
        ClientConfigBuilder { data_dir: None }
    }

    /// The data directory.
    pub fn data_dir(&self) -> (s: &str)
        ensures
            s@ == self.data_dir_view(),
    {
        self.data_dir.as_str()
    }
}

impl ClientConfigBuilder {
    /// The data directory set so far.
    pub closed spec fn data_dir_view(&self) -> Option<Seq<char>> {
        match self.data_dir {
            Some(d) => Some(d@),
            None => None,
        }
    }

    /// Sets the directory where identity and network data are stored.
    pub fn data_dir(self, path: &str) -> (b: ClientConfigBuilder)
        ensures
            b.data_dir_view() == Some(path@),
    {
        ClientConfigBuilder { data_dir: Some(path.to_string()) }
    }

    /// The configuration; the data directory must have been set.
    pub fn build(self) -> (c: ClientConfig)
        requires
            self.data_dir_view() is Some,
        ensures
            Some(c.data_dir_view()) == self.data_dir_view(),
    {
        match self.data_dir {
            Some(d) => ClientConfig { data_dir: d },
            None => ClientConfig { data_dir: String::new() },
        }
    }

    /// The configuration, or `None` when no data directory was set.
    pub fn try_build(self) -> (c: Option<ClientConfig>)
        ensures
            c is Some <==> self.data_dir_view() is Some,
            c matches Some(cfg) ==> Some(cfg.data_dir_view()) == self.data_dir_view(),
    {
        match self.data_dir {
            Some(d) => Some(ClientConfig { data_dir: d }),
            None => None,
        }
    }
}

/// The current identity as the SDK shows it.
#[derive(Debug)]
pub struct IdentityInfo {
    pub cid_short: String,
    /// The CID as displayed (its short form).
    pub cid_full: String,
    pub pub_key_b58: String,
}

impl IdentityInfo {
    /// The record of a keypair: short CID, displayed CID and Base58 public key.
    pub fn from_keypair(kp: &CiviumKeypair) -> (i: IdentityInfo)
        ensures
            i.cid_short@ == cid_short_of(kp.public_view()),
            i.cid_full@ == cid_short_of(kp.public_view()),
            i.pub_key_b58@ == bs58_text(kp.public_view()),
    {
        let cid = kp.cid();
        IdentityInfo { cid_short: cid.short().to_string(), cid_full: cid.to_display_string(), pub_key_b58: kp.pub_key_b58() }
    }
}

/// A network as the SDK shows it.
#[derive(Debug)]
pub struct NetworkInfo {
    pub cid_short: String,
    pub cid_full: String,
    pub name: String,
    pub member_count: u32,
}

/// A message as the SDK shows it.
#[derive(Debug)]
pub struct MessageInfo {
    pub id: String,
    pub author_cid_short: String,
    pub author_name: String,
    pub body: String,
    pub sent_at: u64,
    pub is_direct: bool,
}

/// A proposal as the SDK shows it.
#[derive(Debug)]
pub struct ProposalInfo {
    pub id: String,
    pub title: String,
    pub description: String,
    pub options: Vec<String>,
    pub created_at: u64,
    pub closes_at: u64,
    pub created_by: String,
    pub status: String,
}

/// A vote as the SDK shows it.
#[derive(Debug)]
pub struct VoteInfo {
    pub proposal_id: String,
    pub voter_cid_short: String,
    pub choice_index: u32,
    pub cast_at: u64,
}

} // verus!
