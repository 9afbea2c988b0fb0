//! Compact JSON text for the signed payloads: strings escaped as `serde_json` escapes
//! them, unsigned integers in decimal, booleans as `true`/`false`, no white space.
use vstd::prelude::*;
use crate::text::{append_str, decimal, decimal_string, push_char};

verus! {

/// Lower-case hexadecimal digit of `d` (0 to 15).
pub open spec fn hex_digit(d: nat) -> char {
    if d < 10 {
        (48 + d) as char
    } else {
        (87 + d) as char
    }
}

/// The JSON text of one character inside a string literal.
pub open spec fn json_char(c: char) -> Seq<char> {
    if c == '"' {
        seq!['\\', '"']
    } else if c == '\\' {
        seq!['\\', '\\']
    } else if c == '\n' {
        seq!['\\', 'n']
    } else if c == '\r' {
        seq!['\\', 'r']
    } else if c == '\t' {
        seq!['\\', 't']
    } else if c == '\x08' {
        seq!['\\', 'b']
    } else if c == '\x0c' {
        seq!['\\', 'f']
    } else if (c as u32) < 32 {
        seq!['\\', 'u', '0', '0', hex_digit((c as u32 / 16) as nat), hex_digit((c as u32 % 16) as nat)]
    } else {
        seq![c]
    }
}

/// The escaped body of a JSON string literal for `s`.
pub open spec fn json_escape(s: Seq<char>) -> Seq<char>
    decreases s.len(),
{
    if s.len() == 0 {
        Seq::empty()
    } else {
        json_escape(s.drop_last()) + json_char(s.last())
    }
}

/// The JSON string literal for `s`, quotes included.
pub open spec fn json_string(s: Seq<char>) -> Seq<char> {
    seq!['"'] + json_escape(s) + seq!['"']
}

/// The JSON literal of a boolean.
pub open spec fn json_bool(b: bool) -> Seq<char> {
    if b {
        seq!['t', 'r', 'u', 'e']
    } else {
        seq!['f', 'a', 'l', 's', 'e']
    }
}

/// `"key":` followed by the JSON `value`.
pub open spec fn json_member(key: Seq<char>, value: Seq<char>) -> Seq<char> {
    json_string(key) + seq![':'] + value
}

/// `"key":` followed by the decimal rendering of `n`.
pub open spec fn json_num_member(key: Seq<char>, n: nat) -> Seq<char> {
    json_member(key, decimal(n))
}

/// `"key":` followed by the string literal of `s`.
pub open spec fn json_str_member(key: Seq<char>, s: Seq<char>) -> Seq<char> {
    json_member(key, json_string(s))
}

/// Appends the hexadecimal digit of `d`.
fn push_hex(out: &mut String, d: u32)
    requires
        d < 16,
    ensures
        final(out)@ == old(out)@.push(hex_digit(d as nat)),
{
    if d < 10 {
        push_char(out, ((d as u8) + 48u8) as char);
    } else {
        push_char(out, ((d as u8) + 87u8) as char);
    }
}

/// Appends the JSON text of one character of a string literal.
fn push_json_char(out: &mut String, c: char)
    ensures
        final(out)@ == old(out)@ + json_char(c),
{
    let ghost start = out@;
    if c == '"' {
        push_char(out, '\\');
        push_char(out, '"');
    } else if c == '\\' {
        push_char(out, '\\');
        push_char(out, '\\');
    } else if c == '\n' {
        push_char(out, '\\');
        push_char(out, 'n');
    } else if c == '\r' {
        push_char(out, '\\');
        push_char(out, 'r');
    } else if c == '\t' {
        push_char(out, '\\');
        push_char(out, 't');
    } else if c == '\x08' {
        push_char(out, '\\');
        push_char(out, 'b');
    } else if c == '\x0c' {
        push_char(out, '\\');
        push_char(out, 'f');
    } else if (c as u32) < 32 {
        let v: u32 = c as u32;
        push_char(out, '\\');
        push_char(out, 'u');
        push_char(out, '0');
        push_char(out, '0');
        push_hex(out, v / 16);
        push_hex(out, v % 16);
    } else {
        push_char(out, c);
    }
    assert(out@ =~= start + json_char(c));
}

/// Appends the JSON string literal of `s`, quotes included.
pub fn push_json_string(out: &mut String, s: &str)
    ensures
        final(out)@ == old(out)@ + json_string(s@),
{
    let ghost start = out@;
    push_char(out, '"');
    let n = s.unicode_len();
    let mut i: usize = 0;
    while i < n
        invariant
            n == s@.len(),
            i <= n,
            out@ == start + seq!['"'] + json_escape(s@.subrange(0, i as int)),
        decreases n - i,
    {
        let c = s.get_char(i);
        push_json_char(out, c);
        proof {
            let t = s@.subrange(0, i + 1);
            assert(t.drop_last() =~= s@.subrange(0, i as int));
            assert(t.last() == c);
        }
        i = i + 1;
    }
    assert(s@.subrange(0, n as int) =~= s@);
    push_char(out, '"');
    assert(out@ =~= start + json_string(s@));
}

/// Appends `"key":`.
fn push_key(out: &mut String, key: &str)
    ensures
        final(out)@ == old(out)@ + json_string(key@) + seq![':'],
{
    push_json_string(out, key);
    push_char(out, ':');
}

/// Appends `"key":` and the decimal rendering of `n`.
pub fn push_num_member(out: &mut String, key: &str, n: u64)
    ensures
        final(out)@ == old(out)@ + json_num_member(key@, n as nat),
{
    let ghost start = out@;
    push_key(out, key);
    let d = decimal_string(n);
    append_str(out, d.as_str());
    assert(out@ =~= start + json_num_member(key@, n as nat));
}

/// Appends `"key":` and the string literal of `s`.
pub fn push_str_member(out: &mut String, key: &str, s: &str)
    ensures
        final(out)@ == old(out)@ + json_str_member(key@, s@),
{
    let ghost start = out@;
    push_key(out, key);
    push_json_string(out, s);
    assert(out@ =~= start + json_str_member(key@, s@));
}

/// Appends `"key":` and the JSON literal of `b`.
pub fn push_bool_member(out: &mut String, key: &str, b: bool)
    ensures
        final(out)@ == old(out)@ + json_member(key@, json_bool(b)),
{
    let ghost start = out@;
    push_key(out, key);
    if b {
        push_char(out, 't');
        push_char(out, 'r');
        push_char(out, 'u');
        push_char(out, 'e');
    } else {
        push_char(out, 'f');
        push_char(out, 'a');
        push_char(out, 'l');
        push_char(out, 's');
        push_char(out, 'e');
    }
    assert(out@ =~= start + json_member(key@, json_bool(b)));
}

} // verus!
