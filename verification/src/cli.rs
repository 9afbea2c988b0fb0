//! What the command-line client computes: file locations of the plain-file store, the
//! short display of timestamps, and the choice of a network from a CID prefix.
use vstd::prelude::*;
use crate::error::CiviumError;
use crate::text::{append_str, decimal_padded, decimal_padded_string, has_prefix, owned, push_char, starts_with};

verus! {

/// The identity stored on disk.
#[derive(Debug)]
pub struct IdentityFile {
    pub secret_b58: String,
    pub cid_short: String,
    pub cid_full: String,
}

/// The path that `std::path::Path::join` gives for `base` and `part`.
pub uninterp spec fn path_join(base: Seq<char>, part: Seq<char>) -> Seq<char>;

/// `Path::new(base).join(part)`, as text. The result is named `path_join`; it depends on
/// the two texts alone (and on the platform's separator).
#[verifier::external_body]
fn join_path(base: &str, part: &str) -> (p: String)
    ensures
        p@ == path_join(base@, part@),
{
    std::path::Path::new(base).join(part).to_string_lossy().into_owned()
}

/// `<data_dir>/identity.json`.
pub fn identity_path(data_dir: &str) -> (p: String)
    ensures
        p@ == path_join(data_dir@, "identity.json"@),
{
    join_path(data_dir, "identity.json")
}

/// `<data_dir>/networks/<cid_short>`.
pub fn network_dir(data_dir: &str, cid_short: &str) -> (p: String)
    ensures
        p@ == path_join(path_join(data_dir@, "networks"@), cid_short@),
{
    let n = join_path(data_dir, "networks");
    join_path(n.as_str(), cid_short)
}

/// `<data_dir>/networks/<cid_short>/network.json`.
pub fn network_path(data_dir: &str, cid_short: &str) -> (p: String)
    ensures
        p@ == path_join(path_join(path_join(data_dir@, "networks"@), cid_short@), "network.json"@),
{
    let d = network_dir(data_dir, cid_short);
    join_path(d.as_str(), "network.json")
}

/// `<data_dir>/networks/<cid_short>/mailbox.json`.
pub fn mailbox_path(data_dir: &str, cid_short: &str) -> (p: String)
    ensures
        p@ == path_join(path_join(path_join(data_dir@, "networks"@), cid_short@), "mailbox.json"@),
{
    let d = network_dir(data_dir, cid_short);
    join_path(d.as_str(), "mailbox.json")
}

/// The fields of the short date display of a Unix time: a year of 365 days and months
/// of 30 days (the month capped at 12, the day at 31), then hours and minutes.
pub open spec fn ts_fields(unix: u64) -> (nat, nat, nat, nat, nat) {
    let mins = unix as nat / 60;
    let hours = mins / 60;
    let days = hours / 24;
    let rem = days % 365;
    let month = rem / 30 + 1;
    let day = rem % 30 + 1;
    (
        1970 + days / 365,
        if month <= 12 { month } else { 12 },
        if day <= 31 { day } else { 31 },
        hours % 24,
        mins % 60,
    )
}

/// `YYYY-MM-DD HH:MM`, each field zero-padded.
pub open spec fn ts_text(unix: u64) -> Seq<char> {
    let f = ts_fields(unix);
    decimal_padded(f.0, 4) + seq!['-'] + decimal_padded(f.1, 2) + seq!['-'] + decimal_padded(f.2, 2) + seq![' ']
        + decimal_padded(f.3, 2) + seq![':'] + decimal_padded(f.4, 2)
}

/// The short display of a Unix time (an approximation of the calendar date, for the
/// command line).
pub fn fmt_ts(unix: u64) -> (s: String)
    ensures
        s@ == ts_text(unix),
{
    let mins = unix / 60;
    let hours = mins / 60;
    let days = hours / 24;
    let year = 1970 + days / 365;
    let rem = days % 365;
    let month0 = rem / 30 + 1;
    let day0 = rem % 30 + 1;
    let month: u64 = if month0 <= 12 { month0 } else { 12 };
    let day: u64 = if day0 <= 31 { day0 } else { 31 };
    let mut s = decimal_padded_string(year, 4);
    push_char(&mut s, '-');
    let m = decimal_padded_string(month, 2);
    append_str(&mut s, m.as_str());
    push_char(&mut s, '-');
    let d = decimal_padded_string(day, 2);
    append_str(&mut s, d.as_str());
    push_char(&mut s, ' ');
    let h = decimal_padded_string(hours % 24, 2);
    append_str(&mut s, h.as_str());
    push_char(&mut s, ':');
    let mi = decimal_padded_string(mins % 60, 2);
    append_str(&mut s, mi.as_str());
    assert(s@ =~= ts_text(unix));
    s
}

/// The stored network CIDs that start with `prefix`.
pub open spec fn prefix_matches(cids: Seq<String>, prefix: Seq<char>) -> Seq<String>
    decreases cids.len(),
{
    if cids.len() == 0 {
        Seq::empty()
    } else {
        let rest = prefix_matches(cids.drop_last(), prefix);
        if has_prefix(cids.last()@, prefix) {
            rest.push(cids.last())
        } else {
            rest
        }
    }
}

/// Chooses the stored network that a CID prefix designates: the only stored CID that
/// starts with it; a `Network` error when none or several do.
pub fn resolve_network_prefix(cids: &Vec<String>, prefix: &str) -> (r: Result<String, CiviumError>)
    ensures
        r is Ok <==> prefix_matches(cids@, prefix@).len() == 1,
        r matches Ok(c) ==> c == prefix_matches(cids@, prefix@)[0],
        r matches Err(e) ==> e is Network,
{
    let mut found: Vec<String> = Vec::new();
    let mut i: usize = 0;
    while i < cids.len()
        invariant
            i <= cids.len(),
            found@ == prefix_matches(cids@.subrange(0, i as int), prefix@),
        decreases cids.len() - i,
    {
        proof {
            let sub = cids@.subrange(0, i + 1);
            assert(sub.drop_last() =~= cids@.subrange(0, i as int));
            assert(sub.last() == cids@[i as int]);
        }
        if starts_with(cids[i].as_str(), prefix) {
            found.push(cids[i].clone());
        }
        i = i + 1;
    }
    assert(cids@.subrange(0, cids@.len() as int) =~= cids@);
    if found.len() == 0 {
        Err(CiviumError::Network(owned("network not found")))
    } else if found.len() == 1 {
        Ok(found[0].clone())
    } else {
        Err(CiviumError::Network(owned("ambiguous network prefix — be more specific")))
    }
}

} // verus!
