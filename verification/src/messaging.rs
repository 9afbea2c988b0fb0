//! Network messaging: encrypted messages, and the per-network mailbox, a grow-only set of
//! messages (merged by identifier) with a per-author rate limit.
use vstd::prelude::*;
use vstd::utf8::{decode_utf8, encode_utf8, valid_utf8};
use crate::cipher::{chacha_seal, sealable};
use crate::crypto::{GroupKey, bad_nonce, nonce_is_bad, open_b58};
use crate::encoding::bs58_text;
use crate::entropy::{random_12, unix_now};
use crate::error::CiviumError;
use crate::member::copy_opt_string;
use crate::sorting::{first_after, lemma_first_after_scan, lemma_stable_sort, lemma_stable_sort_contains, sorted_by, stable_sort};
use crate::text::{owned, str_eq};

verus! {

/// Length of the rate-limit window, in seconds.
pub const RATE_LIMIT_WINDOW_SECS: u64 = 60;

/// Most messages an author may post within one window.
pub const RATE_LIMIT_MAX_MSGS: usize = 60;

/// Size of the blocks a file is cut into before encryption (64 KiB).
pub const CHUNK_SIZE: usize = 65_536;

/// Largest file that can be posted (50 MiB).
pub const MAX_FILE_BYTES: usize = 52_428_800;

/// One encrypted block of a file attachment.
#[derive(Debug, PartialEq, Eq)]
pub struct EncryptedChunk {
    pub index: u32,
    pub nonce_b58: String,
    pub ciphertext_b58: String,
}

impl EncryptedChunk {
    /// An exact copy.
    pub fn copy(&self) -> (r: EncryptedChunk)
        ensures
            r == *self,
    {
        EncryptedChunk { index: self.index, nonce_b58: self.nonce_b58.clone(), ciphertext_b58: self.ciphertext_b58.clone() }
    }
}

/// How a message is routed.
#[derive(Debug, PartialEq, Eq)]
pub enum MessageKind {
    /// Sent to the whole network thread.
    Thread,
    /// Sent to one member (group-key encrypted).
    Direct { to_cid_short: String },
    /// End-to-end encrypted with the pair key of sender and recipient.
    E2E { to_cid_full: String },
    /// A file, cut into blocks encrypted with the group key.
    File { filename: String, mime_type: String, size_bytes: u64, chunks: Vec<EncryptedChunk> },
    /// A calendar event shared in the thread.
    CalendarEvent { title: String, start_at: u64, end_at: u64, location: Option<String>, description: Option<String> },
}

/// An exact copy of a list of chunks.
pub fn copy_chunks(v: &Vec<EncryptedChunk>) -> (r: Vec<EncryptedChunk>)
    ensures
        r@ == v@,
{
    let mut r: Vec<EncryptedChunk> = Vec::new();
    let mut i: usize = 0;
    while i < v.len()
        invariant
            i <= v.len(),
            r@ == v@.subrange(0, i as int),
        decreases v.len() - i,
    {
        r.push(v[i].copy());
        i = i + 1;
        assert(r@ =~= v@.subrange(0, i as int));
    }
    r
}

/// Two message kinds are equal, file blocks compared by their contents.
pub open spec fn kind_eq(a: MessageKind, b: MessageKind) -> bool {
    match (a, b) {
        (
            MessageKind::File { filename: f1, mime_type: t1, size_bytes: s1, chunks: c1 },
            MessageKind::File { filename: f2, mime_type: t2, size_bytes: s2, chunks: c2 },
        ) => f1 == f2 && t1 == t2 && s1 == s2 && c1@ == c2@,
        _ => a == b,
    }
}

/// Two messages are equal, file blocks compared by their contents.
pub open spec fn msg_eq(a: Message, b: Message) -> bool {
    &&& a.id == b.id
    &&& a.author_cid_short == b.author_cid_short
    &&& kind_eq(a.kind, b.kind)
    &&& a.nonce_b58 == b.nonce_b58
    &&& a.ciphertext_b58 == b.ciphertext_b58
    &&& a.sent_at == b.sent_at
    &&& a.reply_to_id == b.reply_to_id
}

/// Two lists of messages are equal, message by message.
pub open spec fn msgs_eq(s: Seq<Message>, t: Seq<Message>) -> bool {
    s.len() == t.len() && forall|i: int| 0 <= i < s.len() ==> msg_eq(#[trigger] s[i], t[i])
}

impl MessageKind {
    /// A copy (file blocks copied one by one).
    pub fn copy(&self) -> (r: MessageKind)
        ensures
            kind_eq(r, *self),
    {
        match self {
            MessageKind::Thread => MessageKind::Thread,
            MessageKind::Direct { to_cid_short } => MessageKind::Direct { to_cid_short: to_cid_short.clone() },
            MessageKind::E2E { to_cid_full } => MessageKind::E2E { to_cid_full: to_cid_full.clone() },
            MessageKind::File { filename, mime_type, size_bytes, chunks } => {
                let c = copy_chunks(chunks);
                proof {
                    assert(c@ =~= chunks@);
                }
                MessageKind::File {
                    filename: filename.clone(),
                    mime_type: mime_type.clone(),
                    size_bytes: *size_bytes,
                    chunks: c,
                }
            },
            MessageKind::CalendarEvent { title, start_at, end_at, location, description } => MessageKind::CalendarEvent {
                title: title.clone(),
                start_at: *start_at,
                end_at: *end_at,
                location: copy_opt_string(location),
                description: copy_opt_string(description),
            },
        }
    }
}

/// An encrypted message in a network mailbox.
#[derive(Debug)]
pub struct Message {
    /// Unique identifier: the Base58 nonce of the encryption.
    pub id: String,
    pub author_cid_short: String,
    pub kind: MessageKind,
    pub nonce_b58: String,
    /// Encrypted body with its authentication tag (Base58).
    pub ciphertext_b58: String,
    pub sent_at: u64,
    /// Identifier of the message answered, in a conversation.
    pub reply_to_id: Option<String>,
}

impl Message {
    /// A copy (file blocks copied one by one).
    pub fn copy(&self) -> (r: Message)
        ensures
            msg_eq(r, *self),
    {
        Message {
            id: self.id.clone(),
            author_cid_short: self.author_cid_short.clone(),
            kind: self.kind.copy(),
            nonce_b58: self.nonce_b58.clone(),
            ciphertext_b58: self.ciphertext_b58.clone(),
            sent_at: self.sent_at,
            reply_to_id: copy_opt_string(&self.reply_to_id),
        }
    }
}

/// Messages are ordered by the time they were sent.
pub open spec fn by_sent() -> spec_fn(Message) -> int {
    |m: Message| m.sent_at as int
}

/// File blocks are ordered by their index.
pub open spec fn by_index() -> spec_fn(EncryptedChunk) -> int {
    |c: EncryptedChunk| c.index as int
}

/// Some message of `s` has the identifier `id`.
pub open spec fn has_id(s: Seq<Message>, id: Seq<char>) -> bool {
    exists|i: int| 0 <= i < s.len() && #[trigger] s[i].id@ == id
}

/// The messages of `theirs`, in order, whose identifier is not among `mine`.
pub open spec fn missing_from(mine: Seq<Message>, theirs: Seq<Message>) -> Seq<Message>
    decreases theirs.len(),
{
    if theirs.len() == 0 {
        Seq::empty()
    } else {
        let rest = missing_from(mine, theirs.drop_last());
        if has_id(mine, theirs.last().id@) {
            rest
        } else {
            rest.push(theirs.last())
        }
    }
}

proof fn lemma_missing_from_contains(mine: Seq<Message>, theirs: Seq<Message>, m: Message)
    ensures
        missing_from(mine, theirs).contains(m) <==> (theirs.contains(m) && !has_id(mine, m.id@)),
    decreases theirs.len(),
{
    if theirs.len() > 0 {
        lemma_missing_from_contains(mine, theirs.drop_last(), m);
        assert(theirs =~= theirs.drop_last().push(theirs.last()));
        if theirs.contains(m) && !theirs.drop_last().contains(m) {
            let i = choose|i: int| 0 <= i < theirs.len() && theirs[i] == m;
            if i < theirs.len() - 1 {
                assert(theirs.drop_last()[i] == m);
            }
        }
        if theirs.drop_last().contains(m) {
            let i = choose|i: int| 0 <= i < theirs.drop_last().len() && theirs.drop_last()[i] == m;
            assert(theirs[i] == m);
        }
        let rest = missing_from(mine, theirs.drop_last());
        if !has_id(mine, theirs.last().id@) {
            if rest.contains(m) {
                let i = choose|i: int| 0 <= i < rest.len() && rest[i] == m;
                assert(rest.push(theirs.last())[i] == m);
            }
            assert(rest.push(theirs.last())[rest.len() as int] == theirs.last());
            if rest.push(theirs.last()).contains(m) && m != theirs.last() {
                let i = choose|i: int| 0 <= i < rest.len() + 1 && rest.push(theirs.last())[i] == m;
                assert(rest[i] == m);
            }
        }
    }
}

/// The seconds elapsed from `ts` to `now`, or 0 when `ts` is later.
pub open spec fn elapsed(now: u64, ts: u64) -> int {
    if now >= ts {
        now - ts
    } else {
        0
    }
}

/// The timestamps of `s` that are still within the window at `now`.
pub open spec fn recent(s: Seq<u64>, now: u64) -> Seq<u64>
    decreases s.len(),
{
    if s.len() == 0 {
        Seq::empty()
    } else {
        let rest = recent(s.drop_last(), now);
        if elapsed(now, s.last()) < RATE_LIMIT_WINDOW_SECS {
            rest.push(s.last())
        } else {
            rest
        }
    }
}

/// The posting times of an author after a post attempt at `now`: those within the
/// window, plus `now` when fewer than 60 remain.
pub open spec fn stamps_after(old_stamps: Seq<u64>, now: u64) -> Seq<u64> {
    let kept = recent(old_stamps, now);
    if kept.len() >= RATE_LIMIT_MAX_MSGS {
        kept
    } else {
        kept.push(now)
    }
}

proof fn lemma_recent_len(s: Seq<u64>, now: u64)
    ensures
        recent(s, now).len() <= s.len(),
    decreases s.len(),
{
    if s.len() > 0 {
        lemma_recent_len(s.drop_last(), now);
    }
}

struct RateBucket {
    author: String,
    stamps: Vec<u64>,
}

/// Per-author posting times within the sliding window. Kept in memory only.
pub struct RateLimiter {
    buckets: Vec<RateBucket>,
}

spec fn bucket_pos(b: Seq<RateBucket>, author: Seq<char>) -> int
    decreases b.len(),
{
    if b.len() == 0 {
        -1
    } else {
        let p = bucket_pos(b.drop_last(), author);
        if p != -1 {
            p
        } else if b.last().author@ == author {
            b.len() - 1
        } else {
            -1
        }
    }
}

proof fn lemma_bucket_pos(b: Seq<RateBucket>, author: Seq<char>)
    ensures
        -1 <= bucket_pos(b, author) < b.len(),
        bucket_pos(b, author) >= 0 ==> b[bucket_pos(b, author)].author@ == author,
        forall|j: int| 0 <= j < b.len() && (bucket_pos(b, author) == -1 || j < bucket_pos(b, author))
            ==> #[trigger] b[j].author@ != author,
    decreases b.len(),
{
    if b.len() > 0 {
        lemma_bucket_pos(b.drop_last(), author);
        assert forall|j: int| 0 <= j < b.len() && (bucket_pos(b, author) == -1 || j < bucket_pos(b, author))
            implies #[trigger] b[j].author@ != author by {
            if j < b.len() - 1 {
                assert(b[j] == b.drop_last()[j]);
            }
        }
    }
}

proof fn lemma_bucket_pos_unique(b: Seq<RateBucket>, author: Seq<char>, i: int)
    requires
        0 <= i < b.len(),
        b[i].author@ == author,
        forall|j: int| 0 <= j < i ==> #[trigger] b[j].author@ != author,
    ensures
        bucket_pos(b, author) == i,
{
    lemma_bucket_pos(b, author);
}

fn find_bucket(b: &Vec<RateBucket>, author: &str) -> (r: Option<usize>)
    ensures
        match r {
            Some(i) => i as int == bucket_pos(b@, author@),
            None => bucket_pos(b@, author@) == -1,
        },
        -1 <= bucket_pos(b@, author@) < b@.len(),
{
    proof {
        lemma_bucket_pos(b@, author@);
    }
    let mut i: usize = 0;
    while i < b.len()
        invariant
            i <= b.len(),
            -1 <= bucket_pos(b@, author@) < b@.len(),
            bucket_pos(b@, author@) >= 0 ==> b@[bucket_pos(b@, author@)].author@ == author@,
            forall|j: int| 0 <= j < i ==> #[trigger] b@[j].author@ != author@,
            forall|j: int| 0 <= j < b@.len() && (bucket_pos(b@, author@) == -1 || j < bucket_pos(b@, author@))
                ==> #[trigger] b@[j].author@ != author@,
        decreases b.len() - i,
    {
        if str_eq(b[i].author.as_str(), author) {
            return Some(i);
        }
        i = i + 1;
    }
    None
}

impl RateLimiter {
    /// The recorded posting times of `author` (none when the author never posted).
    pub closed spec fn stamps_of(&self, author: Seq<char>) -> Seq<u64> {
        let p = bucket_pos(self.buckets@, author);
        if p == -1 {
            Seq::empty()
        } else {
            self.buckets@[p].stamps@
        }
    }

    /// No recorded posting times.
    pub fn new() -> (r: RateLimiter)
        ensures
            forall|a: Seq<char>| #[trigger] r.stamps_of(a) == Seq::<u64>::empty(),
    {
        RateLimiter { buckets: Vec::new() }
    }

    /// Sliding-window check for a post by `author` at `now`: the author's times older than
    /// the window are dropped; with 60 or more left the post is refused (`RateLimited`),
    /// else `now` is recorded. Other authors are untouched.
    pub fn check(&mut self, author: &str, now: u64) -> (r: Result<(), CiviumError>)
        ensures
            ({
                let kept = recent(old(self).stamps_of(author@), now);
                if kept.len() >= RATE_LIMIT_MAX_MSGS {
                    &&& r matches Err(e) && e is RateLimited
                    &&& final(self).stamps_of(author@) == kept
                } else {
                    &&& r is Ok
                    &&& final(self).stamps_of(author@) == kept.push(now)
                }
            }),
            forall|a: Seq<char>| a != author@ ==> #[trigger] final(self).stamps_of(a) == old(self).stamps_of(a),
            old(self).stamps_of(author@).len() <= RATE_LIMIT_MAX_MSGS ==> final(self).stamps_of(author@).len() <= RATE_LIMIT_MAX_MSGS,
    {
        proof {
            lemma_bucket_pos(self.buckets@, author@);
        }
        let pos = find_bucket(&self.buckets, author);
        let found = pos.is_some();
        let idx: usize = match pos {
            Some(i) => i,
            None => self.buckets.len(),
        };
        let ghost old_buckets = self.buckets@;
        let old_stamps: Vec<u64> = if found {
            let b = self.buckets.remove(idx);
            b.stamps
        } else {
            Vec::new()
        };
        let mut kept: Vec<u64> = Vec::new();
        let mut i: usize = 0;
        while i < old_stamps.len()
            invariant
                i <= old_stamps.len(),
                kept@ == recent(old_stamps@.subrange(0, i as int), now),
            decreases old_stamps.len() - i,
        {
            let ts = old_stamps[i];
            let el: u64 = if now >= ts {
                now - ts
            } else {
                0
            };
            proof {
                let sub = old_stamps@.subrange(0, i + 1);
                assert(sub.drop_last() =~= old_stamps@.subrange(0, i as int));
                assert(sub.last() == ts);
            }
            if el < RATE_LIMIT_WINDOW_SECS {
                kept.push(ts);
            }
            i = i + 1;
        }
        assert(old_stamps@.subrange(0, old_stamps@.len() as int) =~= old_stamps@);
        proof {
            lemma_recent_len(old_stamps@, now);
        }
        let refused = kept.len() >= RATE_LIMIT_MAX_MSGS;
        if !refused {
            kept.push(now);
        }
        let nb = RateBucket { author: owned(author), stamps: kept };
        if found {
            self.buckets.insert(idx, nb);
        } else {
            self.buckets.push(nb);
        }
        proof {
            let nbs = self.buckets@;
            lemma_bucket_pos(nbs, author@);
            lemma_bucket_pos(old_buckets, author@);
            lemma_bucket_pos_unique(nbs, author@, idx as int);
            assert forall|a: Seq<char>| a != author@ implies #[trigger] self.stamps_of(a) == old(self).stamps_of(a) by {
                lemma_bucket_pos(nbs, a);
                lemma_bucket_pos(old_buckets, a);
                let p = bucket_pos(old_buckets, a);
                if p != -1 {
                    assert(p != idx);
                    if found {
                        assert(nbs[p] == old_buckets[p]);
                    } else {
                        assert(nbs[p] == old_buckets[p]);
                    }
                    lemma_bucket_pos_unique(nbs, a, p);
                } else {
                    let q = bucket_pos(nbs, a);
                    if q != -1 {
                        assert(q != idx);
                        assert(nbs[q] == old_buckets[q]);
                    }
                }
            }
        }
        if refused {
            Err(CiviumError::RateLimited(owned("author exceeded 60 messages per 60 s")))
        } else {
            Ok(())
        }
    }
}

/// The plaintext blocks of a file (in order), concatenated, or `None` when one of
/// them does not open under `key`.
pub open spec fn opened_chunks(key: Seq<u8>, chunks: Seq<EncryptedChunk>) -> Option<Seq<u8>>
    decreases chunks.len(),
{
    if chunks.len() == 0 {
        Some(Seq::empty())
    } else {
        match (opened_chunks(key, chunks.drop_last()), open_b58(key, chunks.last().nonce_b58@, chunks.last().ciphertext_b58@)) {
            (Some(a), Some(b)) => Some(a + b),
            _ => None,
        }
    }
}

/// No block nonce of the file decodes to anything but 12 bytes.
pub open spec fn chunk_nonces_ok(chunks: Seq<EncryptedChunk>) -> bool {
    forall|i: int| 0 <= i < chunks.len() ==> !bad_nonce(#[trigger] chunks[i].nonce_b58@)
}

/// The `i`-th block of `data`.
pub open spec fn block(data: Seq<u8>, i: int) -> Seq<u8> {
    data.subrange(i * CHUNK_SIZE, if (i + 1) * CHUNK_SIZE <= data.len() { (i + 1) * CHUNK_SIZE } else { data.len() as int })
}

/// `m` is the file message that `author` posts for `data` under `key`: a `File` message
/// with the file's name, type and size, no reply, empty nonce and ciphertext, and blocks
/// numbered in order, block `i` opening to the `i`-th 64 KiB of `data`.
pub open spec fn file_posted(
    m: Message,
    author: String,
    filename: String,
    mime_type: String,
    data: Seq<u8>,
    key: Seq<u8>,
) -> bool {
    &&& m.author_cid_short == author
    &&& m.reply_to_id is None
    &&& m.nonce_b58@.len() == 0
    &&& m.ciphertext_b58@.len() == 0
    &&& m.kind matches MessageKind::File { filename: f, mime_type: t, size_bytes, chunks } && {
        &&& f == filename
        &&& t == mime_type
        &&& size_bytes == data.len()
        &&& chunks@.len() == (data.len() + CHUNK_SIZE - 1) / CHUNK_SIZE as int
        &&& chunk_nonces_ok(chunks@)
        &&& forall|i: int| 0 <= i < chunks@.len() ==> (#[trigger] chunks@[i]).index == i
            && open_b58(key, chunks@[i].nonce_b58@, chunks@[i].ciphertext_b58@) == Some(block(data, i))
        &&& opened_chunks(key, chunks@) == Some(data)
    }
}

/// The message of a thread.
pub open spec fn is_thread(m: Message) -> bool {
    m.kind is Thread
}

/// The message is a direct message between `a` and `b`, in either direction.
pub open spec fn is_direct_between(m: Message, a: Seq<char>, b: Seq<char>) -> bool {
    m.kind matches MessageKind::Direct { to_cid_short } && ((m.author_cid_short@ == a && to_cid_short@ == b)
        || (m.author_cid_short@ == b && to_cid_short@ == a))
}

/// The messages of `s`, in order, that satisfy `p`.
pub open spec fn select(s: Seq<Message>, p: spec_fn(Message) -> bool) -> Seq<Message>
    decreases s.len(),
{
    if s.len() == 0 {
        Seq::empty()
    } else {
        let rest = select(s.drop_last(), p);
        if p(s.last()) {
            rest.push(s.last())
        } else {
            rest
        }
    }
}

/// The messages that `s` refers to.
pub open spec fn derefs(s: Seq<&Message>) -> Seq<Message> {
    s.map_values(|m: &Message| *m)
}

/// A network's messages: a grow-only set merged by identifier.
pub struct Mailbox {
    /// All messages received or confirmed sent.
    pub messages: Vec<Message>,
    /// Messages created locally and not yet sent to peers.
    pub outbox: Vec<Message>,
    /// Recent posting times per author (not persisted).
    pub rate_buckets: RateLimiter,
}

/// Inserts `m` into the list `out`, sorted by sending time, after every message sent at
/// the same time or before.
fn insert_by_sent(out: &mut Vec<Message>, m: Message)
    ensures
        final(out)@ == old(out)@.insert(first_after(old(out)@, by_sent(), m.sent_at as int), m),
{
    let mut p: usize = 0;
    while p < out.len() && out[p].sent_at <= m.sent_at
        invariant
            p <= out.len(),
            forall|j: int| 0 <= j < p ==> (by_sent())(#[trigger] out@[j]) <= m.sent_at as int,
        decreases out.len() - p,
    {
        p = p + 1;
    }
    proof {
        lemma_first_after_scan(out@, by_sent(), m.sent_at as int, p as int);
    }
    out.insert(p, m);
}

/// The messages of `v`, stably sorted by sending time.
pub fn sort_by_sent(v: Vec<Message>) -> (r: Vec<Message>)
    ensures
        r@ == stable_sort(v@, by_sent()),
{
    let ghost orig = v@;
    let mut v = v;
    let mut out: Vec<Message> = Vec::new();
    let ghost mut i: int = 0;
    assert(orig.subrange(0, 0) =~= Seq::<Message>::empty());
    assert(orig.subrange(0, orig.len() as int) =~= orig);
    while v.len() > 0
        invariant
            0 <= i <= orig.len(),
            v@ == orig.subrange(i, orig.len() as int),
            out@ == stable_sort(orig.subrange(0, i), by_sent()),
        decreases v.len(),
    {
        let m = v.remove(0);
        proof {
            let sub = orig.subrange(0, i + 1);
            assert(sub.drop_last() =~= orig.subrange(0, i));
            assert(sub.last() == m);
            assert(v@ =~= orig.subrange(i + 1, orig.len() as int));
        }
        insert_by_sent(&mut out, m);
        proof {
            i = i + 1;
        }
    }
    assert(orig.subrange(0, i) =~= orig);
    out
}

/// The blocks of `v`, stably sorted by index.
pub fn sort_by_index(v: &Vec<EncryptedChunk>) -> (r: Vec<EncryptedChunk>)
    ensures
        r@ == stable_sort(v@, by_index()),
{
    let mut out: Vec<EncryptedChunk> = Vec::new();
    let mut i: usize = 0;
    assert(v@.subrange(0, 0) =~= Seq::<EncryptedChunk>::empty());
    while i < v.len()
        invariant
            i <= v.len(),
            out@ == stable_sort(v@.subrange(0, i as int), by_index()),
        decreases v.len() - i,
    {
        let c = v[i].copy();
        proof {
            let sub = v@.subrange(0, i + 1);
            assert(sub.drop_last() =~= v@.subrange(0, i as int));
            assert(sub.last() == c);
        }
        let mut p: usize = 0;
        while p < out.len() && out[p].index <= c.index
            invariant
                p <= out.len(),
                forall|j: int| 0 <= j < p ==> (by_index())(#[trigger] out@[j]) <= c.index as int,
            decreases out.len() - p,
        {
            p = p + 1;
        }
        proof {
            lemma_first_after_scan(out@, by_index(), c.index as int, p as int);
        }
        out.insert(p, c);
        i = i + 1;
    }
    assert(v@.subrange(0, v@.len() as int) =~= v@);
    out
}

/// Whether some message of `v` has identifier `id`.
fn holds_id(v: &Vec<Message>, id: &str) -> (b: bool)
    ensures
        b == has_id(v@, id@),
{
    let mut i: usize = 0;
    while i < v.len()
        invariant
            i <= v.len(),
            forall|j: int| 0 <= j < i ==> #[trigger] v@[j].id@ != id@,
        decreases v.len() - i,
    {
        if str_eq(v[i].id.as_str(), id) {
            return true;
        }
        i = i + 1;
    }
    false
}

impl Mailbox {
    /// An empty mailbox.
    pub fn new() -> (m: Mailbox)
        ensures
            m.messages@.len() == 0,
            m.outbox@.len() == 0,
            forall|a: Seq<char>| #[trigger] m.rate_buckets.stamps_of(a) == Seq::<u64>::empty(),
    {
        Mailbox { messages: Vec::new(), outbox: Vec::new(), rate_buckets: RateLimiter::new() }
    }

    /// Sliding-window rate limit for a post by `author` at `now` (see `RateLimiter::check`).
    pub fn check_rate_limit(&mut self, author: &str, now: u64) -> (r: Result<(), CiviumError>)
        ensures
            final(self).messages@ == old(self).messages@,
            final(self).outbox@ == old(self).outbox@,
            ({
                let kept = recent(old(self).rate_buckets.stamps_of(author@), now);
                if kept.len() >= RATE_LIMIT_MAX_MSGS {
                    &&& r matches Err(e) && e is RateLimited
                    &&& final(self).rate_buckets.stamps_of(author@) == kept
                } else {
                    &&& r is Ok
                    &&& final(self).rate_buckets.stamps_of(author@) == kept.push(now)
                }
            }),
            forall|a: Seq<char>| a != author@ ==> #[trigger] final(self).rate_buckets.stamps_of(a) == old(self).rate_buckets.stamps_of(a),
    {
        self.rate_buckets.check(author, now)
    }

    /// Encrypts `body` with the group key under `nonce` and appends it as a message sent
    /// at `now`, after the rate-limit check (a `RateLimited` error). The message's
    /// identifier is the nonce's Base58 text; its ciphertext opens to `body`'s bytes.
    pub fn post_at(
        &mut self,
        author_cid_short: String,
        kind: MessageKind,
        body: &str,
        group_key: &GroupKey,
        now: u64,
        nonce: &[u8; 12],
    ) -> (r: Result<&Message, CiviumError>)
        ensures
            final(self).outbox@ == old(self).outbox@,
            recent(old(self).rate_buckets.stamps_of(author_cid_short@), now).len() >= RATE_LIMIT_MAX_MSGS ==> (r matches Err(e) && e is RateLimited),
            r is Ok <==> (recent(old(self).rate_buckets.stamps_of(author_cid_short@), now).len() < RATE_LIMIT_MAX_MSGS
                && sealable(encode_utf8(body@))),
            final(self).rate_buckets.stamps_of(author_cid_short@) == stamps_after(old(self).rate_buckets.stamps_of(author_cid_short@), now),
            forall|a: Seq<char>| a != author_cid_short@ ==> #[trigger] final(self).rate_buckets.stamps_of(a) == old(self).rate_buckets.stamps_of(a),
            r matches Err(e) ==> e is RateLimited || e is Crypto,
            r is Err ==> final(self).messages@ == old(self).messages@,
            r matches Ok(m) ==> m.nonce_b58@ == bs58_text(nonce@)
                && m.ciphertext_b58@ == bs58_text(chacha_seal(group_key.key_view(), nonce@, encode_utf8(body@))),
            r matches Ok(m) ==> {
                &&& final(self).messages@ == old(self).messages@.push(*m)
                &&& m.id == m.nonce_b58
                &&& m.author_cid_short == author_cid_short
                &&& m.kind == kind
                &&& m.sent_at == now
                &&& m.reply_to_id is None
                &&& open_b58(group_key.key_view(), m.nonce_b58@, m.ciphertext_b58@) == Some(encode_utf8(body@))
                &&& !bad_nonce(m.nonce_b58@)
            },
    {
        match self.rate_buckets.check(author_cid_short.as_str(), now) {
            Err(e) => return Err(e),
            Ok(()) => {},
        }
        let (n, c) = match group_key.encrypt_with_nonce(body.as_bytes(), nonce) {
            Err(e) => return Err(e),
            Ok(p) => p,
        };
        let msg = Message {
            id: n.clone(),
            author_cid_short,
            kind,
            nonce_b58: n,
            ciphertext_b58: c,
            sent_at: now,
            reply_to_id: None,
        };
        self.messages.push(msg);
        let last = self.messages.len() - 1;
        Ok(&self.messages[last])
    }

    /// Encrypts `body` with the group key and appends it as a message sent now (see
    /// `post_at`), under a fresh random nonce.
    /// It succeeds exactly when the author is within the rate limit at the time of
    /// posting and the body is not too long for the cipher; an author with fewer than 60
    /// recorded posts is always within it.
    pub fn post(&mut self, author_cid_short: String, kind: MessageKind, body: &str, group_key: &GroupKey) -> (r: Result<&Message, CiviumError>)
        ensures
            final(self).outbox@ == old(self).outbox@,
            exists|t: u64| {
                &&& (r is Ok <==> #[trigger] recent(old(self).rate_buckets.stamps_of(author_cid_short@), t).len() < RATE_LIMIT_MAX_MSGS
                    && sealable(encode_utf8(body@)))
                &&& final(self).rate_buckets.stamps_of(author_cid_short@) == stamps_after(old(self).rate_buckets.stamps_of(author_cid_short@), t)
                &&& (r matches Ok(m) ==> m.sent_at == t)
            },
            old(self).rate_buckets.stamps_of(author_cid_short@).len() < RATE_LIMIT_MAX_MSGS && sealable(encode_utf8(body@)) ==> r is Ok,
            !sealable(encode_utf8(body@)) ==> r is Err,
            r matches Err(e) ==> e is RateLimited || e is Crypto,
            forall|a: Seq<char>| a != author_cid_short@ ==> #[trigger] final(self).rate_buckets.stamps_of(a) == old(self).rate_buckets.stamps_of(a),
            r is Err ==> final(self).messages@ == old(self).messages@,
            r matches Ok(m) ==> {
                &&& final(self).messages@ == old(self).messages@.push(*m)
                &&& m.id == m.nonce_b58
                &&& m.author_cid_short == author_cid_short
                &&& m.kind == kind
                &&& m.reply_to_id is None
                &&& open_b58(group_key.key_view(), m.nonce_b58@, m.ciphertext_b58@) == Some(encode_utf8(body@))
                &&& !bad_nonce(m.nonce_b58@)
                &&& exists|n: Seq<u8>| n.len() == 12 && m.nonce_b58@ == #[trigger] bs58_text(n)
                    && m.ciphertext_b58@ == bs58_text(chacha_seal(group_key.key_view(), n, encode_utf8(body@)))
            },
    {
        let now = unix_now();
        let nonce = random_12();
        proof {
            lemma_recent_len(old(self).rate_buckets.stamps_of(author_cid_short@), now);
        }
        self.post_at(author_cid_short, kind, body, group_key, now, &nonce)
    }

    /// Encrypts a file in 64 KiB blocks (each under a fresh random nonce) and appends it
    /// as a `File` message sent at `now`. After the rate-limit check, a file larger than
    /// 50 MiB is refused (a `Messaging` error). Block `i` opens to the `i`-th 64 KiB of
    /// `data`, and the blocks together open to `data`.
    pub fn post_file_at(
        &mut self,
        author_cid_short: String,
        filename: String,
        mime_type: String,
        data: &[u8],
        group_key: &GroupKey,
        now: u64,
    ) -> (r: Result<&Message, CiviumError>)
        ensures
            final(self).outbox@ == old(self).outbox@,
            recent(old(self).rate_buckets.stamps_of(author_cid_short@), now).len() >= RATE_LIMIT_MAX_MSGS ==> (r matches Err(e) && e is RateLimited),
            recent(old(self).rate_buckets.stamps_of(author_cid_short@), now).len() < RATE_LIMIT_MAX_MSGS && data@.len() > MAX_FILE_BYTES
                ==> (r matches Err(e) && e is Messaging),
            r is Ok <==> (recent(old(self).rate_buckets.stamps_of(author_cid_short@), now).len() < RATE_LIMIT_MAX_MSGS
                && data@.len() <= MAX_FILE_BYTES),
            r matches Err(e) ==> e is RateLimited || e is Messaging,
            final(self).rate_buckets.stamps_of(author_cid_short@) == stamps_after(old(self).rate_buckets.stamps_of(author_cid_short@), now),
            forall|a: Seq<char>| a != author_cid_short@ ==> #[trigger] final(self).rate_buckets.stamps_of(a) == old(self).rate_buckets.stamps_of(a),
            r is Err ==> final(self).messages@ == old(self).messages@,
            r matches Ok(m) ==> {
                &&& final(self).messages@ == old(self).messages@.push(*m)
                &&& m.sent_at == now
                &&& file_posted(*m, author_cid_short, filename, mime_type, data@, group_key.key_view())
            },
    {
        match self.rate_buckets.check(author_cid_short.as_str(), now) {
            Err(e) => return Err(e),
            Ok(()) => {},
        }
        if data.len() > MAX_FILE_BYTES {
            return Err(CiviumError::Messaging(owned("fichier trop volumineux (max 50 Mo)")));
        }
        let mut chunks: Vec<EncryptedChunk> = Vec::new();
        let mut start: usize = 0;
        let mut k: u32 = 0;
        while start < data.len()
            invariant
                self.messages@ == old(self).messages@,
                self.outbox@ == old(self).outbox@,
                self.rate_buckets.stamps_of(author_cid_short@) == stamps_after(old(self).rate_buckets.stamps_of(author_cid_short@), now),
                forall|a: Seq<char>| a != author_cid_short@ ==> #[trigger] self.rate_buckets.stamps_of(a) == old(self).rate_buckets.stamps_of(a),
                recent(old(self).rate_buckets.stamps_of(author_cid_short@), now).len() < RATE_LIMIT_MAX_MSGS,
                data@.len() <= MAX_FILE_BYTES,
                start <= data@.len(),
                start < data@.len() ==> start == k as int * CHUNK_SIZE,
                k as int * CHUNK_SIZE <= data@.len() + CHUNK_SIZE,
                start == data@.len() ==> (k == 0 || (k - 1) * CHUNK_SIZE < data@.len()) && data@.len() <= k as int * CHUNK_SIZE,
                chunks@.len() == k,
                chunk_nonces_ok(chunks@),
                forall|i: int| 0 <= i < chunks@.len() ==> (#[trigger] chunks@[i]).index == i
                    && open_b58(group_key.key_view(), chunks@[i].nonce_b58@, chunks@[i].ciphertext_b58@) == Some(block(data@, i)),
                opened_chunks(group_key.key_view(), chunks@) == Some(data@.subrange(0, start as int)),
            decreases data@.len() - start,
        {
            let end: usize = if data.len() - start > CHUNK_SIZE {
                start + CHUNK_SIZE
            } else {
                data.len()
            };
            let piece = vstd::slice::slice_subrange(data, start, end);
            let (n, c) = match group_key.encrypt(piece) {
                Err(e) => return Err(e),
                Ok(p) => p,
            };
            let ghost old_chunks = chunks@;
            chunks.push(EncryptedChunk { index: k, nonce_b58: n, ciphertext_b58: c });
            proof {
                assert(piece@ =~= block(data@, k as int));
                assert(chunks@.drop_last() =~= old_chunks);
                assert(data@.subrange(0, start as int) + piece@ =~= data@.subrange(0, end as int));
                assert forall|i: int| 0 <= i < chunks@.len() implies !bad_nonce(#[trigger] chunks@[i].nonce_b58@) by {
                    if i < old_chunks.len() {
                        assert(chunks@[i] == old_chunks[i]);
                    }
                }
            }
            start = end;
            k = k + 1;
        }
        assert(data@.subrange(0, data@.len() as int) =~= data@);
        let msg = Message {
            id: match group_key.encrypt(&[]) {
                Err(e) => return Err(e),
                Ok(p) => p.0,
            },
            author_cid_short,
            kind: MessageKind::File { filename, mime_type, size_bytes: data.len() as u64, chunks },
            nonce_b58: String::new(),
            ciphertext_b58: String::new(),
            sent_at: now,
            reply_to_id: None,
        };
        self.messages.push(msg);
        let last = self.messages.len() - 1;
        Ok(&self.messages[last])
    }

    /// Encrypts and appends a file now (see `post_file_at`).
    pub fn post_file(
        &mut self,
        author_cid_short: String,
        filename: String,
        mime_type: String,
        data: &[u8],
        group_key: &GroupKey,
    ) -> (r: Result<&Message, CiviumError>)
        ensures
            final(self).outbox@ == old(self).outbox@,
            exists|t: u64| {
                &&& (r is Ok <==> #[trigger] recent(old(self).rate_buckets.stamps_of(author_cid_short@), t).len() < RATE_LIMIT_MAX_MSGS
                    && data@.len() <= MAX_FILE_BYTES)
                &&& final(self).rate_buckets.stamps_of(author_cid_short@) == stamps_after(old(self).rate_buckets.stamps_of(author_cid_short@), t)
                &&& (r matches Ok(m) ==> m.sent_at == t)
                &&& (recent(old(self).rate_buckets.stamps_of(author_cid_short@), t).len() < RATE_LIMIT_MAX_MSGS
                    && data@.len() > MAX_FILE_BYTES ==> (r matches Err(e) && e is Messaging))
            },
            old(self).rate_buckets.stamps_of(author_cid_short@).len() < RATE_LIMIT_MAX_MSGS && data@.len() <= MAX_FILE_BYTES ==> r is Ok,
            old(self).rate_buckets.stamps_of(author_cid_short@).len() < RATE_LIMIT_MAX_MSGS && data@.len() > MAX_FILE_BYTES
                ==> (r matches Err(e) && e is Messaging),
            data@.len() > MAX_FILE_BYTES ==> r is Err,
            r matches Err(e) ==> e is RateLimited || e is Messaging,
            forall|a: Seq<char>| a != author_cid_short@ ==> #[trigger] final(self).rate_buckets.stamps_of(a) == old(self).rate_buckets.stamps_of(a),
            r is Err ==> final(self).messages@ == old(self).messages@,
            r matches Ok(m) ==> final(self).messages@ == old(self).messages@.push(*m)
                && file_posted(*m, author_cid_short, filename, mime_type, data@, group_key.key_view()),
    {
        let now = unix_now();
        proof {
            lemma_recent_len(old(self).rate_buckets.stamps_of(author_cid_short@), now);
        }
        self.post_file_at(author_cid_short, filename, mime_type, data, group_key, now)
    }

    /// Decrypts and joins the blocks of a `File` message, in index order; a `Messaging`
    /// error when the message is not a file, a `Crypto` error when a block does not open.
    /// No block nonce may decode to anything but 12 bytes.
    #[verifier::loop_isolation(false)]
    pub fn decrypt_file(&self, msg: &Message, group_key: &GroupKey) -> (r: Result<Vec<u8>, CiviumError>)
        requires
            msg.kind matches MessageKind::File { chunks, .. } ==> chunk_nonces_ok(chunks@),
        ensures
            !(msg.kind is File) ==> (r matches Err(e) && e is Messaging),
            msg.kind matches MessageKind::File { chunks, .. } ==> {
                let sorted = stable_sort(chunks@, by_index());
                &&& r is Ok <==> opened_chunks(group_key.key_view(), sorted) is Some
                &&& r matches Ok(d) ==> opened_chunks(group_key.key_view(), sorted) == Some(d@)
                &&& r matches Err(e) ==> e is Crypto
            },
    {
        match &msg.kind {
            MessageKind::File { chunks, .. } => {
                let sorted = sort_by_index(chunks);
                proof {
                    lemma_stable_sort(chunks@, by_index());
                    assert forall|i: int| 0 <= i < sorted@.len() implies !bad_nonce(#[trigger] sorted@[i].nonce_b58@) by {
                        lemma_stable_sort_contains(chunks@, by_index(), sorted@[i]);
                        assert(sorted@.contains(sorted@[i]));
                        let j = choose|j: int| 0 <= j < chunks@.len() && chunks@[j] == sorted@[i];
                        assert(!bad_nonce(chunks@[j].nonce_b58@));
                    }
                }
                let mut out: Vec<u8> = Vec::new();
                let mut i: usize = 0;
                while i < sorted.len()
                    invariant
                        i <= sorted.len(),
                        forall|j: int| 0 <= j < sorted@.len() ==> !bad_nonce(#[trigger] sorted@[j].nonce_b58@),
                        opened_chunks(group_key.key_view(), sorted@.subrange(0, i as int)) == Some(out@),
                    decreases sorted.len() - i,
                {
                    proof {
                        let sub = sorted@.subrange(0, i + 1);
                        assert(sub.drop_last() =~= sorted@.subrange(0, i as int));
                        assert(sub.last() == sorted@[i as int]);
                    }
                    let bytes = match group_key.decrypt(sorted[i].nonce_b58.as_str(), sorted[i].ciphertext_b58.as_str()) {
                        Err(e) => {
                            proof {
                                lemma_opened_prefix_none(group_key.key_view(), sorted@, i as int);
                            }
                            return Err(e);
                        },
                        Ok(b) => b,
                    };
                    let ghost before = out@;
                    let mut j: usize = 0;
                    while j < bytes.len()
                        invariant
                            j <= bytes.len(),
                            out@ == before + bytes@.subrange(0, j as int),
                        decreases bytes.len() - j,
                    {
                        out.push(bytes[j]);
                        j = j + 1;
                        assert(out@ =~= before + bytes@.subrange(0, j as int));
                    }
                    assert(bytes@.subrange(0, bytes@.len() as int) =~= bytes@);
                    i = i + 1;
                }
                assert(sorted@.subrange(0, sorted@.len() as int) =~= sorted@);
                Ok(out)
            },
            _ => Err(CiviumError::Messaging(owned("ce message n'est pas un fichier"))),
        }
    }

    /// `decrypt_file`, with a block nonce of the wrong length refused as a `Crypto` error.
    #[verifier::loop_isolation(false)]
    pub fn decrypt_file_checked(&self, msg: &Message, group_key: &GroupKey) -> (r: Result<Vec<u8>, CiviumError>)
        ensures
            !(msg.kind is File) ==> (r matches Err(e) && e is Messaging),
            msg.kind matches MessageKind::File { chunks, .. } ==> {
                let sorted = stable_sort(chunks@, by_index());
                &&& !chunk_nonces_ok(chunks@) ==> (r matches Err(e) && e is Crypto)
                &&& chunk_nonces_ok(chunks@) ==> (r is Ok <==> opened_chunks(group_key.key_view(), sorted) is Some)
                &&& r matches Ok(d) ==> opened_chunks(group_key.key_view(), sorted) == Some(d@)
            },
    {
        match &msg.kind {
            MessageKind::File { chunks, .. } => {
                let mut i: usize = 0;
                while i < chunks.len()
                    invariant
                        i <= chunks.len(),
                        forall|j: int| 0 <= j < i ==> !bad_nonce(#[trigger] chunks@[j].nonce_b58@),
                    decreases chunks.len() - i,
                {
                    if nonce_is_bad(chunks[i].nonce_b58.as_str()) {
                        return Err(CiviumError::Crypto(owned("nonce must be 12 bytes")));
                    }
                    i = i + 1;
                }
                self.decrypt_file(msg, group_key)
            },
            _ => Err(CiviumError::Messaging(owned("ce message n'est pas un fichier"))),
        }
    }

    /// Decrypts a message's body with the group key; a `Crypto` error when it does not
    /// open, a `Messaging` error when the plaintext is not UTF-8. The nonce must not decode
    /// to anything but 12 bytes.
    pub fn decrypt_body(&self, msg: &Message, group_key: &GroupKey) -> (r: Result<String, CiviumError>)
        requires
            !bad_nonce(msg.nonce_b58@),
        ensures
            ({
                let o = open_b58(group_key.key_view(), msg.nonce_b58@, msg.ciphertext_b58@);
                &&& o is None ==> (r matches Err(e) && e is Crypto)
                &&& (o matches Some(p) && !valid_utf8(p)) ==> (r matches Err(e) && e is Messaging)
                &&& o matches Some(p) ==> (valid_utf8(p) ==> (r matches Ok(s) && s@ == decode_utf8(p)))
            }),
    {
        match group_key.decrypt(msg.nonce_b58.as_str(), msg.ciphertext_b58.as_str()) {
            Err(e) => Err(e),
            Ok(bytes) => match crate::text::utf8_string(bytes) {
                None => Err(CiviumError::Messaging(owned("invalid UTF-8 body"))),
                Some(s) => Ok(s),
            },
        }
    }

    /// `decrypt_body`, with a nonce of the wrong length refused as a `Crypto` error.
    pub fn decrypt_body_checked(&self, msg: &Message, group_key: &GroupKey) -> (r: Result<String, CiviumError>)
        ensures
            bad_nonce(msg.nonce_b58@) ==> (r matches Err(e) && e is Crypto),
            !bad_nonce(msg.nonce_b58@) ==> ({
                let o = open_b58(group_key.key_view(), msg.nonce_b58@, msg.ciphertext_b58@);
                &&& o is None ==> (r matches Err(e) && e is Crypto)
                &&& (o matches Some(p) && !valid_utf8(p)) ==> (r matches Err(e) && e is Messaging)
                &&& o matches Some(p) ==> (valid_utf8(p) ==> (r matches Ok(s) && s@ == decode_utf8(p)))
            }),
    {
        if nonce_is_bad(msg.nonce_b58.as_str()) {
            Err(CiviumError::Crypto(owned("nonce must be 12 bytes")))
        } else {
            self.decrypt_body(msg, group_key)
        }
    }

    /// Grow-only merge: appends the messages of `other` whose identifier this mailbox does
    /// not hold, then sorts all messages by sending time (stably). Afterwards the mailbox
    /// holds exactly the identifiers it held and those of `other`.
    pub fn merge(&mut self, other: &Mailbox)
        ensures
            exists|c: Seq<Message>| msgs_eq(c, old(self).messages@ + missing_from(old(self).messages@, other.messages@))
                && #[trigger] stable_sort(c, by_sent()) == final(self).messages@,
            final(self).outbox@ == old(self).outbox@,
            sorted_by(final(self).messages@, by_sent()),
            forall|id: Seq<char>| #[trigger] has_id(final(self).messages@, id) <==> (has_id(old(self).messages@, id) || has_id(other.messages@, id)),
    {
        let ghost mine = self.messages@;
        let ghost theirs = other.messages@;
        let mut all: Vec<Message> = Vec::new();
        let mut i: usize = 0;
        while i < self.messages.len()
            invariant
                i <= self.messages.len(),
                msgs_eq(all@, self.messages@.subrange(0, i as int)),
            decreases self.messages.len() - i,
        {
            let ghost before = all@;
            all.push(self.messages[i].copy());
            proof {
                let t = self.messages@.subrange(0, i + 1);
                assert forall|j: int| 0 <= j < all@.len() implies msg_eq(#[trigger] all@[j], t[j]) by {
                    if j < i {
                        assert(all@[j] == before[j]);
                    }
                }
            }
            i = i + 1;
        }
        assert(self.messages@.subrange(0, self.messages@.len() as int) =~= self.messages@);
        let mut k: usize = 0;
        while k < other.messages.len()
            invariant
                self.messages@ == mine,
                other.messages@ == theirs,
                k <= other.messages.len(),
                msgs_eq(all@, mine + missing_from(mine, theirs.subrange(0, k as int))),
            decreases other.messages.len() - k,
        {
            proof {
                let sub = theirs.subrange(0, k + 1);
                assert(sub.drop_last() =~= theirs.subrange(0, k as int));
                assert(sub.last() == theirs[k as int]);
            }
            let ghost before = all@;
            if !holds_id(&self.messages, other.messages[k].id.as_str()) {
                all.push(other.messages[k].copy());
                proof {
                    let t = mine + missing_from(mine, theirs.subrange(0, k + 1));
                    let t0 = mine + missing_from(mine, theirs.subrange(0, k as int));
                    assert(t =~= t0.push(theirs[k as int]));
                    assert forall|j: int| 0 <= j < all@.len() implies msg_eq(#[trigger] all@[j], t[j]) by {
                        if j < before.len() {
                            assert(all@[j] == before[j]);
                            assert(t[j] == t0[j]);
                        }
                    }
                }
            } else {
                proof {
                    let t = mine + missing_from(mine, theirs.subrange(0, k + 1));
                    let t0 = mine + missing_from(mine, theirs.subrange(0, k as int));
                    assert(t =~= t0);
                }
            }
            k = k + 1;
        }
        assert(theirs.subrange(0, theirs.len() as int) =~= theirs);
        let ghost combined = all@;
        let ghost target = mine + missing_from(mine, theirs);
        let sorted = sort_by_sent(all);
        proof {
            lemma_stable_sort(combined, by_sent());
            assert forall|id: Seq<char>| #[trigger] has_id(sorted@, id) <==> (has_id(mine, id) || has_id(theirs, id)) by {
                let extra = missing_from(mine, theirs);
                if has_id(sorted@, id) {
                    let i = choose|i: int| 0 <= i < sorted@.len() && sorted@[i].id@ == id;
                    let m = sorted@[i];
                    assert(sorted@.contains(m));
                    lemma_stable_sort_contains(combined, by_sent(), m);
                    let j = choose|j: int| 0 <= j < combined.len() && combined[j] == m;
                    assert(msg_eq(combined[j], target[j]));
                    if j < mine.len() {
                        assert(target[j] == mine[j]);
                        assert(mine[j].id@ == id);
                    } else {
                        assert(target[j] == extra[j - mine.len()]);
                        assert(extra.contains(extra[j - mine.len()]));
                        lemma_missing_from_contains(mine, theirs, extra[j - mine.len()]);
                        let t = choose|t: int| 0 <= t < theirs.len() && theirs[t] == extra[j - mine.len()];
                        assert(theirs[t].id@ == id);
                    }
                }
                if has_id(mine, id) {
                    let j = choose|j: int| 0 <= j < mine.len() && mine[j].id@ == id;
                    assert(target[j] == mine[j]);
                    assert(msg_eq(combined[j], target[j]));
                    let m = combined[j];
                    assert(combined.contains(m));
                    lemma_stable_sort_contains(combined, by_sent(), m);
                    let i = choose|i: int| 0 <= i < sorted@.len() && sorted@[i] == m;
                    assert(sorted@[i].id@ == id);
                }
                if has_id(theirs, id) && !has_id(mine, id) {
                    let t = choose|t: int| 0 <= t < theirs.len() && theirs[t].id@ == id;
                    let m = theirs[t];
                    assert(theirs.contains(m));
                    lemma_missing_from_contains(mine, theirs, m);
                    let e = choose|e: int| 0 <= e < extra.len() && extra[e] == m;
                    assert(target[mine.len() + e] == m);
                    assert(msg_eq(combined[mine.len() + e], target[mine.len() + e]));
                    let c = combined[mine.len() + e];
                    assert(combined.contains(c));
                    lemma_stable_sort_contains(combined, by_sent(), c);
                    let i = choose|i: int| 0 <= i < sorted@.len() && sorted@[i] == c;
                    assert(sorted@[i].id@ == id);
                }
            }
        }
        self.messages = sorted;
    }

    /// The thread messages, in mailbox order.
    pub fn thread_messages(&self) -> (r: Vec<&Message>)
        ensures
            derefs(r@) == select(self.messages@, |m: Message| is_thread(m)),
    {
        let mut r: Vec<&Message> = Vec::new();
        let mut i: usize = 0;
        while i < self.messages.len()
            invariant
                i <= self.messages.len(),
                derefs(r@) == select(self.messages@.subrange(0, i as int), |m: Message| is_thread(m)),
            decreases self.messages.len() - i,
        {
            proof {
                let sub = self.messages@.subrange(0, i + 1);
                assert(sub.drop_last() =~= self.messages@.subrange(0, i as int));
                assert(sub.last() == self.messages@[i as int]);
            }
            match &self.messages[i].kind {
                MessageKind::Thread => {
                    r.push(&self.messages[i]);
                },
                _ => {},
            }
            proof {
                assert(derefs(r@) =~= select(self.messages@.subrange(0, i + 1), |m: Message| is_thread(m)));
            }
            i = i + 1;
        }
        assert(self.messages@.subrange(0, self.messages@.len() as int) =~= self.messages@);
        r
    }

    /// The direct messages between `local_cid` and `peer_cid`, in either direction, in
    /// mailbox order.
    pub fn direct_messages(&self, local_cid: &str, peer_cid: &str) -> (r: Vec<&Message>)
        ensures
            derefs(r@) == select(self.messages@, |m: Message| is_direct_between(m, local_cid@, peer_cid@)),
    {
        let mut r: Vec<&Message> = Vec::new();
        let mut i: usize = 0;
        while i < self.messages.len()
            invariant
                i <= self.messages.len(),
                derefs(r@) == select(self.messages@.subrange(0, i as int), |m: Message| is_direct_between(m, local_cid@, peer_cid@)),
            decreases self.messages.len() - i,
        {
            proof {
                let sub = self.messages@.subrange(0, i + 1);
                assert(sub.drop_last() =~= self.messages@.subrange(0, i as int));
                assert(sub.last() == self.messages@[i as int]);
            }
            match &self.messages[i].kind {
                MessageKind::Direct { to_cid_short } => {
                    let author = self.messages[i].author_cid_short.as_str();
                    let to = to_cid_short.as_str();
                    if (str_eq(author, local_cid) && str_eq(to, peer_cid)) || (str_eq(author, peer_cid) && str_eq(to, local_cid)) {
                        r.push(&self.messages[i]);
                    }
                },
                _ => {},
            }
            proof {
                assert(derefs(r@) =~= select(self.messages@.subrange(0, i + 1), |m: Message| is_direct_between(m, local_cid@, peer_cid@)));
            }
            i = i + 1;
        }
        assert(self.messages@.subrange(0, self.messages@.len() as int) =~= self.messages@);
        r
    }
}

proof fn lemma_opened_prefix_none(key: Seq<u8>, s: Seq<EncryptedChunk>, i: int)
    requires
        0 <= i < s.len(),
        open_b58(key, s[i].nonce_b58@, s[i].ciphertext_b58@) is None,
    ensures
        opened_chunks(key, s) is None,
    decreases s.len(),
{
    if i < s.len() - 1 {
        assert(s.drop_last()[i] == s[i]);
        lemma_opened_prefix_none(key, s.drop_last(), i);
    }
}

/// Messages posted later are never lost by a merge: every message identifier of either
/// mailbox survives it (stated by `Mailbox::merge`), and merging a mailbox's own messages
/// into it adds nothing.
pub proof fn lemma_merge_self_adds_nothing(s: Seq<Message>)
    ensures
        missing_from(s, s).len() == 0,
{
    lemma_missing_self(s, s);
}

proof fn lemma_missing_self(mine: Seq<Message>, theirs: Seq<Message>)
    requires
        forall|i: int| 0 <= i < theirs.len() ==> #[trigger] mine.contains(theirs[i]),
    ensures
        missing_from(mine, theirs).len() == 0,
    decreases theirs.len(),
{
    if theirs.len() > 0 {
        assert forall|i: int| 0 <= i < theirs.drop_last().len() implies #[trigger] mine.contains(theirs.drop_last()[i]) by {
            assert(theirs.drop_last()[i] == theirs[i]);
        }
        lemma_missing_self(mine, theirs.drop_last());
        assert(mine.contains(theirs[theirs.len() - 1]));
        let j = choose|j: int| 0 <= j < mine.len() && mine[j] == theirs.last();
        assert(mine[j].id@ == theirs.last().id@);
    }
}

/// Merging the same mailbox a second time adds nothing: once a mailbox holds every
/// identifier of `other` (as `Mailbox::merge` leaves it), no message of `other` is
/// missing from it, so a second merge keeps exactly the same identifiers and count.
pub proof fn lemma_merge_again_adds_nothing(mine: Seq<Message>, other: Seq<Message>)
    requires
        forall|id: Seq<char>| #[trigger] has_id(other, id) ==> has_id(mine, id),
    ensures
        missing_from(mine, other).len() == 0,
    decreases other.len(),
{
    if other.len() > 0 {
        let o = other.drop_last();
        assert forall|id: Seq<char>| #[trigger] has_id(o, id) implies has_id(mine, id) by {
            let i = choose|i: int| 0 <= i < o.len() && #[trigger] o[i].id@ == id;
            assert(other[i] == o[i]);
            assert(has_id(other, id));
        }
        lemma_merge_again_adds_nothing(mine, o);
        assert(other[other.len() - 1].id@ == other.last().id@);
        assert(has_id(other, other.last().id@));
    }
}

/// A posted file decrypts to the original data: blocks numbered in order are already
/// sorted by index, so `decrypt_file` joins exactly the blocks that `post_file_at` made.
pub proof fn lemma_file_roundtrip(key: Seq<u8>, chunks: Seq<EncryptedChunk>, data: Seq<u8>)
    requires
        forall|i: int| 0 <= i < chunks.len() ==> (#[trigger] chunks[i]).index == i,
        opened_chunks(key, chunks) == Some(data),
    ensures
        opened_chunks(key, stable_sort(chunks, by_index())) == Some(data),
{
    assert(sorted_by(chunks, by_index())) by {
        assert forall|i: int, j: int| 0 <= i <= j < chunks.len() implies (by_index())(#[trigger] chunks[i]) <= (by_index())(#[trigger] chunks[j]) by {
            assert(chunks[i].index == i && chunks[j].index == j);
        }
    }
    crate::sorting::lemma_stable_sort_sorted(chunks, by_index());
}

} // verus!
