//! Shared documents of a network, with last-writer-wins merging on a Lamport clock.
use vstd::prelude::*;
use crate::entropy::{unix_now, uuid_v4};
use crate::text::{lemma_lex_antisym, lemma_lex_total, lemma_lex_trans, lex_le, str_le};

verus! {

/// A shared document of a network; its body is encrypted with the group key.
///
/// Conflicts are resolved last-writer-wins on `lamport_clock`; on equal clocks the
/// document with the lexicographically smaller `id` wins.
#[derive(Debug)]
pub struct Document {
    pub id: String,
    pub network_cid_short: String,
    pub title: String,
    /// Nonce (Base58) of the encrypted body.
    pub nonce_b58: String,
    /// Encrypted body (Base58).
    pub body_ciphertext: String,
    /// Lamport clock, incremented on each edit; decides conflicts.
    pub lamport_clock: u64,
    /// Edit count, for display only.
    pub version: u32,
    pub created_by: String,
    pub last_edited_by: String,
    pub created_at: u64,
    pub updated_at: u64,
}

/// The winner of merging `a` and `b`: the higher clock, else the smaller identifier,
/// else `a`.
pub open spec fn merged(a: Document, b: Document) -> Document {
    if a.lamport_clock > b.lamport_clock {
        a
    } else if b.lamport_clock > a.lamport_clock {
        b
    } else if lex_le(a.id@, b.id@) {
        a
    } else {
        b
    }
}

/// `a` and `b` differ in clock or in identifier (so that merging them is decided).
pub open spec fn distinct_keys(a: Document, b: Document) -> bool {
    a.lamport_clock != b.lamport_clock || a.id@ != b.id@
}

impl Document {
    /// A new document created at `now` with identifier `id`: clock and version 1, created
    /// and last edited by `created_by`.
    pub fn new_at(
        id: String,
        network_cid_short: String,
        title: String,
        nonce_b58: String,
        body_ciphertext: String,
        created_by: String,
        now: u64,
    ) -> (d: Document)
        ensures
            d.id == id,
            d.network_cid_short == network_cid_short,
            d.title == title,
            d.nonce_b58 == nonce_b58,
            d.body_ciphertext == body_ciphertext,
            d.lamport_clock == 1,
            d.version == 1,
            d.created_by == created_by,
            d.last_edited_by == created_by,
            d.created_at == now,
            d.updated_at == now,
    {
        Document {
            id,
            network_cid_short,
            title,
            nonce_b58,
            body_ciphertext,
            lamport_clock: 1,
            version: 1,
            created_by: created_by.clone(),
            last_edited_by: created_by,
            created_at: now,
            updated_at: now,
        }
    }

    /// A new document, created now with a random UUID as identifier.
    pub fn new(
        network_cid_short: String,
        title: String,
        nonce_b58: String,
        body_ciphertext: String,
        created_by: String,
    ) -> (d: Document)
        ensures
            d.network_cid_short == network_cid_short,
            d.title == title,
            d.nonce_b58 == nonce_b58,
            d.body_ciphertext == body_ciphertext,
            d.lamport_clock == 1,
            d.version == 1,
            d.created_by == created_by,
            d.last_edited_by == created_by,
            d.created_at == d.updated_at,
    {
        let now = unix_now();
        Self::new_at(uuid_v4(), network_cid_short, title, nonce_b58, body_ciphertext, created_by, now)
    }

    /// Last-writer-wins merge: the document with the higher clock; on equal clocks the one
    /// with the smaller identifier (`self` when both are equal).
    pub fn merge(self, other: Document) -> (r: Document)
        ensures
            r == merged(self, other),
    {
        if self.lamport_clock > other.lamport_clock {
            self
        } else if other.lamport_clock > self.lamport_clock {
            other
        } else if str_le(self.id.as_str(), other.id.as_str()) {
            self
        } else {
            other
        }
    }

    /// The edited document at time `now`: same identifier, network, creator and creation
    /// time; new title, body and editor; clock one past the larger of its own and
    /// `remote_clock`; version one more.
    pub fn update_at(
        &self,
        title: String,
        nonce_b58: String,
        body_ciphertext: String,
        edited_by: String,
        remote_clock: u64,
        now: u64,
    ) -> (d: Document)
        requires
            self.lamport_clock < u64::MAX,
            remote_clock < u64::MAX,
            self.version < u32::MAX,
        ensures
            d.id == self.id,
            d.network_cid_short == self.network_cid_short,
            d.title == title,
            d.nonce_b58 == nonce_b58,
            d.body_ciphertext == body_ciphertext,
            d.lamport_clock == (if self.lamport_clock >= remote_clock { self.lamport_clock } else { remote_clock }) + 1,
            d.version == self.version + 1,
            d.created_by == self.created_by,
            d.last_edited_by == edited_by,
            d.created_at == self.created_at,
            d.updated_at == now,
    {
        let clock: u64 = if self.lamport_clock >= remote_clock {
            self.lamport_clock
        } else {
            remote_clock
        };
        Document {
            id: self.id.clone(),
            network_cid_short: self.network_cid_short.clone(),
            title,
            nonce_b58,
            body_ciphertext,
            lamport_clock: clock + 1,
            version: self.version + 1,
            created_by: self.created_by.clone(),
            last_edited_by: edited_by,
            created_at: self.created_at,
            updated_at: now,
        }
    }

    /// The edited document, now (see `update_at`).
    pub fn update(
        &self,
        title: String,
        nonce_b58: String,
        body_ciphertext: String,
        edited_by: String,
        remote_clock: u64,
    ) -> (d: Document)
        requires
            self.lamport_clock < u64::MAX,
            remote_clock < u64::MAX,
            self.version < u32::MAX,
        ensures
            d.id == self.id,
            d.network_cid_short == self.network_cid_short,
            d.title == title,
            d.nonce_b58 == nonce_b58,
            d.body_ciphertext == body_ciphertext,
            d.lamport_clock == (if self.lamport_clock >= remote_clock { self.lamport_clock } else { remote_clock }) + 1,
            d.version == self.version + 1,
            d.created_by == self.created_by,
            d.last_edited_by == edited_by,
            d.created_at == self.created_at,
            merged(d, *self) == d,
    {
        let now = unix_now();
        self.update_at(title, nonce_b58, body_ciphertext, edited_by, remote_clock, now)
    }
}

/// Merging a document with itself gives it back.
pub proof fn lemma_merge_idempotent(a: Document)
    ensures
        merged(a, a) == a,
{
}

/// Merging is commutative for documents whose clocks or identifiers differ.
pub proof fn lemma_merge_commutative(a: Document, b: Document)
    requires
        distinct_keys(a, b),
    ensures
        merged(a, b) == merged(b, a),
{
    lemma_lex_total(a.id@, b.id@);
    if a.lamport_clock == b.lamport_clock && lex_le(a.id@, b.id@) && lex_le(b.id@, a.id@) {
        lemma_lex_antisym(a.id@, b.id@);
    }
}

/// Merging is associative for documents whose clocks or identifiers pairwise differ.
pub proof fn lemma_merge_associative(a: Document, b: Document, c: Document)
    requires
        distinct_keys(a, b),
        distinct_keys(b, c),
        distinct_keys(a, c),
    ensures
        merged(merged(a, b), c) == merged(a, merged(b, c)),
{
    lemma_lex_total(a.id@, b.id@);
    lemma_lex_total(b.id@, c.id@);
    lemma_lex_total(a.id@, c.id@);
    if lex_le(a.id@, b.id@) && lex_le(b.id@, c.id@) {
        lemma_lex_trans(a.id@, b.id@, c.id@);
    }
    if lex_le(c.id@, b.id@) && lex_le(b.id@, a.id@) {
        lemma_lex_trans(c.id@, b.id@, a.id@);
    }
    if lex_le(b.id@, a.id@) && lex_le(a.id@, c.id@) {
        lemma_lex_trans(b.id@, a.id@, c.id@);
    }
    if lex_le(a.id@, c.id@) && lex_le(c.id@, b.id@) {
        lemma_lex_trans(a.id@, c.id@, b.id@);
    }
    if lex_le(b.id@, c.id@) && lex_le(c.id@, a.id@) {
        lemma_lex_trans(b.id@, c.id@, a.id@);
    }
    if lex_le(c.id@, a.id@) && lex_le(a.id@, b.id@) {
        lemma_lex_trans(c.id@, a.id@, b.id@);
    }
    if lex_le(a.id@, b.id@) && lex_le(b.id@, a.id@) {
        lemma_lex_antisym(a.id@, b.id@);
    }
    if lex_le(b.id@, c.id@) && lex_le(c.id@, b.id@) {
        lemma_lex_antisym(b.id@, c.id@);
    }
    if lex_le(a.id@, c.id@) && lex_le(c.id@, a.id@) {
        lemma_lex_antisym(a.id@, c.id@);
    }
}

/// The merged document is one of the two, and its clock is the larger one.
pub proof fn lemma_merge_picks_max_clock(a: Document, b: Document)
    ensures
        merged(a, b) == a || merged(a, b) == b,
        merged(a, b).lamport_clock >= a.lamport_clock,
        merged(a, b).lamport_clock >= b.lamport_clock,
{
}

/// An edit wins over the document it was made from, and over the remote version whose
/// clock it saw.
pub proof fn lemma_edit_wins(base: Document, edited: Document, remote: Document)
    requires
        edited.lamport_clock > base.lamport_clock,
        edited.lamport_clock > remote.lamport_clock,
    ensures
        merged(edited, base) == edited,
        merged(base, edited) == edited,
        merged(edited, remote) == edited,
        merged(remote, edited) == edited,
{
}

} // verus!
