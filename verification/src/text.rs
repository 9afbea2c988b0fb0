//! Character-level helpers on strings: decimal rendering, prefixes,
//! substring search, trimming and splitting.
use vstd::prelude::*;

verus! {

/// The character of a decimal digit `d` (0 to 9).
pub open spec fn digit_char(d: nat) -> char {
    (48 + d) as char
}

/// Decimal rendering of `n`, most significant digit first, no leading zeros.
pub open spec fn decimal(n: nat) -> Seq<char>
    decreases n,
{
    if n < 10 {
        seq![digit_char(n)]
    } else {
        decimal(n / 10).push(digit_char(n % 10))
    }
}

/// Decimal rendering of `n` padded on the left with zeros to at least `width` characters.
pub open spec fn decimal_padded(n: nat, width: nat) -> Seq<char> {
    let d = decimal(n);
    if d.len() >= width {
        d
    } else {
        Seq::new((width - d.len()) as nat, |i: int| '0') + d
    }
}

/// `prefix` is an initial segment of `s`.
pub open spec fn has_prefix(s: Seq<char>, prefix: Seq<char>) -> bool {
    prefix.len() <= s.len() && s.subrange(0, prefix.len() as int) == prefix
}

/// `needle` occurs as a contiguous segment of `hay`.
pub open spec fn has_segment(hay: Seq<char>, needle: Seq<char>) -> bool {
    exists|i: int|
        0 <= i && i + needle.len() <= hay.len() && #[trigger] hay.subrange(i, i + needle.len())
            == needle
}

/// The first `n` characters of `s` (all of `s` when it is shorter).
pub open spec fn take_chars(s: Seq<char>, n: nat) -> Seq<char> {
    if n <= s.len() {
        s.subrange(0, n as int)
    } else {
        s
    }
}

/// Whether `c` has the Unicode `White_Space` property: the 25 code points U+0009 to
/// U+000D, U+0020, U+0085, U+00A0, U+1680, U+2000 to U+200A, U+2028, U+2029, U+202F,
/// U+205F and U+3000 (the set that std's `char::is_whitespace` tests).
pub open spec fn white_space(c: char) -> bool {
    let n = c as u32;
    ||| 0x09 <= n <= 0x0d
    ||| n == 0x20
    ||| n == 0x85
    ||| n == 0xa0
    ||| n == 0x1680
    ||| 0x2000 <= n <= 0x200a
    ||| n == 0x2028
    ||| n == 0x2029
    ||| n == 0x202f
    ||| n == 0x205f
    ||| n == 0x3000
}

/// Whether `c` has the Unicode `White_Space` property.
fn char_is_whitespace(c: char) -> (b: bool)
    ensures
        b == white_space(c),
{
    let n = c as u32;
    (0x09 <= n && n <= 0x0d) || n == 0x20 || n == 0x85 || n == 0xa0 || n == 0x1680 || (0x2000 <= n && n <= 0x200a)
        || n == 0x2028 || n == 0x2029 || n == 0x202f || n == 0x205f || n == 0x3000
}

/// Std's `str::to_lowercase`: the Unicode lowercase mapping of a string.
/// The contract names the mapping `lowercase`; it depends on the text alone.
pub uninterp spec fn lowercase(s: Seq<char>) -> Seq<char>;

#[verifier::external_body]
pub(crate) fn to_lowercase(s: &str) -> (r: String)
    ensures
        r@ == lowercase(s@),
{
    s.to_lowercase()
}

/// Std's `String::from_utf8`: the text of `bytes` when they are valid UTF-8.
#[verifier::external_body]
pub(crate) fn utf8_string(bytes: Vec<u8>) -> (r: Option<String>)
    ensures
        r is Some <==> vstd::utf8::valid_utf8(bytes@),
        r matches Some(s) ==> s@ == vstd::utf8::decode_utf8(bytes@),
{
    String::from_utf8(bytes).ok()
}

/// Std's `String::push`: appends one character.
#[verifier::external_body]
pub(crate) fn push_char(s: &mut String, c: char)
    ensures
        final(s)@ == old(s)@.push(c),
{
    s.push(c)
}

/// Number of leading characters of `s` that are white space.
pub open spec fn leading_ws(s: Seq<char>) -> nat
    decreases s.len(),
{
    if s.len() > 0 && white_space(s[0]) {
        1 + leading_ws(s.drop_first())
    } else {
        0
    }
}

/// Number of trailing characters of `s` that are white space.
pub open spec fn trailing_ws(s: Seq<char>) -> nat
    decreases s.len(),
{
    if s.len() > 0 && white_space(s.last()) {
        1 + trailing_ws(s.drop_last())
    } else {
        0
    }
}

/// `s` without its leading and trailing white space (std's `str::trim`).
pub open spec fn trimmed(s: Seq<char>) -> Seq<char> {
    let a = s.skip(leading_ws(s) as int);
    a.take(a.len() - trailing_ws(a))
}

/// The pieces of `s` between occurrences of `sep`, in order (std's `str::split` on a char).
pub open spec fn split_on(s: Seq<char>, sep: char) -> Seq<Seq<char>>
    decreases s.len(),
{
    if s.len() == 0 {
        seq![Seq::empty()]
    } else {
        let rest = split_on(s.drop_last(), sep);
        if s.last() == sep {
            rest.push(Seq::empty())
        } else {
            rest.update(rest.len() - 1, rest.last().push(s.last()))
        }
    }
}

proof fn lemma_split_on_nonempty(s: Seq<char>, sep: char)
    ensures
        split_on(s, sep).len() >= 1,
    decreases s.len(),
{
    if s.len() > 0 {
        lemma_split_on_nonempty(s.drop_last(), sep);
    }
}

/// The characters of `s`, in order.
pub fn chars_of(s: &str) -> (v: Vec<char>)
    ensures
        v@ == s@,
{
    let n = s.unicode_len();
    let mut v: Vec<char> = Vec::new();
    let mut i: usize = 0;
    while i < n
        invariant
            n == s@.len(),
            i <= n,
            v@ == s@.subrange(0, i as int),
        decreases n - i,
    {
        v.push(s.get_char(i));
        i = i + 1;
    }
    v
}

/// A string holding exactly the characters `cs[from..to]`.
pub fn string_of(cs: &Vec<char>, from: usize, to: usize) -> (r: String)
    requires
        from <= to <= cs.len(),
    ensures
        r@ == cs@.subrange(from as int, to as int),
{
    let mut r = String::new();
    let mut i: usize = from;
    while i < to
        invariant
            from <= i <= to <= cs.len(),
            r@ == cs@.subrange(from as int, i as int),
        decreases to - i,
    {
        push_char(&mut r, cs[i]);
        i = i + 1;
    }
    r
}

/// Appends all of `t` to `s`.
pub fn append_str(s: &mut String, t: &str)
    ensures
        final(s)@ == old(s)@ + t@,
{
    s.append(t);
}

/// Decimal rendering of `n`.
pub fn decimal_string(n: u64) -> (r: String)
    ensures
        r@ == decimal(n as nat),
{
    let mut m: u64 = n;
    let mut tail: Vec<char> = Vec::new();
    tail.insert(0, ((m % 10) as u8 + 48u8) as char);
    m = m / 10;
    assert(decimal(n as nat) == (if m == 0 {
        Seq::<char>::empty()
    } else {
        decimal(m as nat)
    }) + tail@);
    while m > 0
        invariant
            decimal(n as nat) == (if m == 0 {
                Seq::<char>::empty()
            } else {
                decimal(m as nat)
            }) + tail@,
        decreases m,
    {
        let c = ((m % 10) as u8 + 48u8) as char;
        let ghost old_tail = tail@;
        tail.insert(0, c);
        let ghost mm = m;
        m = m / 10;
        proof {
            assert(decimal(mm as nat) == (if m == 0 {
                Seq::<char>::empty()
            } else {
                decimal(m as nat)
            }).push(c));
            assert(tail@ == seq![c] + old_tail);
            assert((if m == 0 {
                Seq::<char>::empty()
            } else {
                decimal(m as nat)
            }).push(c) + old_tail =~= (if m == 0 {
                Seq::<char>::empty()
            } else {
                decimal(m as nat)
            }) + tail@);
        }
    }
    assert(tail@ =~= Seq::<char>::empty() + tail@);
    string_of(&tail, 0, tail.len())
}

/// Decimal rendering of `n`, zero-padded on the left to at least `width` characters.
pub fn decimal_padded_string(n: u64, width: usize) -> (r: String)
    ensures
        r@ == decimal_padded(n as nat, width as nat),
{
    let d = decimal_string(n);
    let dl = d.as_str().unicode_len();
    if dl >= width {
        d
    } else {
        let mut r = String::new();
        let mut i: usize = 0;
        while i < width - dl
            invariant
                dl < width,
                i <= width - dl,
                r@ == Seq::new(i as nat, |k: int| '0'),
            decreases width - dl - i,
        {
            push_char(&mut r, '0');
            i = i + 1;
            assert(r@ =~= Seq::new(i as nat, |k: int| '0'));
        }
        append_str(&mut r, d.as_str());
        r
    }
}

/// `prefix` is an initial segment of `s`.
pub fn starts_with(s: &str, prefix: &str) -> (b: bool)
    ensures
        b == has_prefix(s@, prefix@),
{
    let a = chars_of(s);
    let p = chars_of(prefix);
    if p.len() > a.len() {
        return false;
    }
    let mut i: usize = 0;
    while i < p.len()
        invariant
            p.len() <= a.len(),
            i <= p.len(),
            a@ == s@,
            p@ == prefix@,
            a@.subrange(0, i as int) == p@.subrange(0, i as int),
        decreases p.len() - i,
    {
        if a[i] != p[i] {
            assert(a@.subrange(0, p.len() as int)[i as int] != p@[i as int]);
            return false;
        }
        i = i + 1;
        assert(a@.subrange(0, i as int) =~= p@.subrange(0, i as int));
    }
    assert(p@.subrange(0, p.len() as int) =~= p@);
    true
}

/// `s` with `prefix` removed from its front, when `s` begins with it.
pub fn strip_prefix(s: &str, prefix: &str) -> (r: Option<String>)
    ensures
        has_prefix(s@, prefix@) <==> r is Some,
        r matches Some(t) ==> t@ == s@.subrange(prefix@.len() as int, s@.len() as int),
{
    if starts_with(s, prefix) {
        let a = chars_of(s);
        let pl = prefix.unicode_len();
        Some(string_of(&a, pl, a.len()))
    } else {
        None
    }
}

/// The first `n` characters of `s` (all of `s` when it is shorter).
pub fn take_prefix(s: &str, n: usize) -> (r: String)
    ensures
        r@ == take_chars(s@, n as nat),
{
    let a = chars_of(s);
    if n <= a.len() {
        string_of(&a, 0, n)
    } else {
        assert(a@.subrange(0, a@.len() as int) =~= a@);
        string_of(&a, 0, a.len())
    }
}

/// Whether `needle` occurs as a contiguous segment of `hay`.
pub fn contains_segment(hay: &str, needle: &str) -> (b: bool)
    ensures
        b == has_segment(hay@, needle@),
{
    let h = chars_of(hay);
    let n = chars_of(needle);
    if n.len() > h.len() {
        return false;
    }
    if n.len() == 0 {
        assert(hay@.subrange(0int, 0int + needle@.len()) =~= needle@);
        return true;
    }
    let last = h.len() - n.len();
    let mut i: usize = 0;
    while i <= last
        invariant
            h@ == hay@,
            n@ == needle@,
            n.len() <= h.len(),
            last == h.len() - n.len(),
            last < h.len(),
            i <= last + 1,
            forall|k: int| 0 <= k < i ==> #[trigger] h@.subrange(k, k + n@.len()) != n@,
        decreases last + 1 - i,
    {
        let mut j: usize = 0;
        let mut same = true;
        while j < n.len()
            invariant
                h@ == hay@,
                n@ == needle@,
                i + n.len() <= h.len(),
                j <= n.len(),
                same ==> h@.subrange(i as int, i + j) =~= n@.subrange(0, j as int),
                !same ==> h@.subrange(i as int, i + n@.len()) != n@,
            decreases n.len() - j,
        {
            if h[i + j] != n[j] {
                assert(h@.subrange(i as int, i + n@.len())[j as int] != n@[j as int]);
                same = false;
            }
            j = j + 1;
        }
        if same {
            assert(n@.subrange(0, n@.len() as int) =~= n@);
            assert(h@.subrange(i as int, i + n@.len()) == n@);
            return true;
        }
        i = i + 1;
    }
    assert forall|k: int|
        0 <= k && k + needle@.len() <= hay@.len() implies #[trigger] hay@.subrange(
        k,
        k + needle@.len(),
    ) != needle@ by {
        assert(k < i);
    }
    false
}

proof fn lemma_leading_ws_bound(s: Seq<char>)
    ensures
        leading_ws(s) <= s.len(),
        forall|k: int| 0 <= k < leading_ws(s) ==> white_space(#[trigger] s[k]),
        leading_ws(s) < s.len() ==> !white_space(s[leading_ws(s) as int]),
    decreases s.len(),
{
    if s.len() > 0 && white_space(s[0]) {
        lemma_leading_ws_bound(s.drop_first());
        assert forall|k: int| 0 <= k < leading_ws(s) implies white_space(#[trigger] s[k]) by {
            if k > 0 {
                assert(s[k] == s.drop_first()[k - 1]);
            }
        }
        if leading_ws(s) < s.len() {
            assert(s[leading_ws(s) as int] == s.drop_first()[leading_ws(s.drop_first()) as int]);
        }
    }
}

proof fn lemma_leading_ws_char(s: Seq<char>, n: nat)
    requires
        n <= s.len(),
        forall|k: int| 0 <= k < n ==> white_space(#[trigger] s[k]),
        n < s.len() ==> !white_space(s[n as int]),
    ensures
        leading_ws(s) == n,
    decreases s.len(),
{
    if n > 0 {
        assert forall|k: int| 0 <= k < n - 1 implies white_space(#[trigger] s.drop_first()[k]) by {
            assert(s.drop_first()[k] == s[k + 1]);
        }
        if n - 1 < s.drop_first().len() {
            assert(s.drop_first()[n - 1] == s[n as int]);
        }
        lemma_leading_ws_char(s.drop_first(), (n - 1) as nat);
    }
}

proof fn lemma_trailing_ws_char(s: Seq<char>, n: nat)
    requires
        n <= s.len(),
        forall|k: int| s.len() - n <= k < s.len() ==> white_space(#[trigger] s[k]),
        n < s.len() ==> !white_space(s[s.len() - n - 1]),
    ensures
        trailing_ws(s) == n,
    decreases s.len(),
{
    if n > 0 {
        assert forall|k: int|
            s.drop_last().len() - (n - 1) <= k < s.drop_last().len() implies white_space(
            #[trigger] s.drop_last()[k],
        ) by {
            assert(s.drop_last()[k] == s[k]);
        }
        if n - 1 < s.drop_last().len() {
            assert(s.drop_last()[s.drop_last().len() - (n - 1) - 1] == s[s.len() - n - 1]);
        }
        lemma_trailing_ws_char(s.drop_last(), (n - 1) as nat);
    }
}

/// `s` without leading and trailing white space.
pub fn trim_chars(cs: &Vec<char>, from: usize, to: usize) -> (r: String)
    requires
        from <= to <= cs.len(),
    ensures
        r@ == trimmed(cs@.subrange(from as int, to as int)),
{
    let ghost s = cs@.subrange(from as int, to as int);
    let mut a: usize = from;
    while a < to && char_is_whitespace(cs[a])
        invariant
            from <= a <= to <= cs.len(),
            forall|k: int| from <= k < a ==> white_space(#[trigger] cs@[k]),
        decreases to - a,
    {
        a = a + 1;
    }
    proof {
        assert forall|k: int| 0 <= k < a - from implies white_space(#[trigger] s[k]) by {
            assert(s[k] == cs@[from + k]);
        }
        if a < to {
            assert(s[a - from] == cs@[a as int]);
        }
        lemma_leading_ws_char(s, (a - from) as nat);
    }
    let ghost t = s.skip(leading_ws(s) as int);
    assert(t =~= cs@.subrange(a as int, to as int));
    let mut b: usize = to;
    while b > a && char_is_whitespace(cs[b - 1])
        invariant
            from <= a <= b <= to <= cs.len(),
            forall|k: int| b <= k < to ==> white_space(#[trigger] cs@[k]),
        decreases b - a,
    {
        b = b - 1;
    }
    proof {
        assert forall|k: int| t.len() - (to - b) <= k < t.len() implies white_space(#[trigger] t[k]) by {
            assert(t[k] == cs@[a + k]);
        }
        if b > a {
            assert(t[t.len() - (to - b) - 1] == cs@[b - 1]);
        }
        lemma_trailing_ws_char(t, (to - b) as nat);
        assert(t.take(t.len() - trailing_ws(t)) =~= cs@.subrange(a as int, b as int));
    }
    string_of(cs, a, b)
}

/// Trimmed string.
pub fn trim(s: &str) -> (r: String)
    ensures
        r@ == trimmed(s@),
{
    let cs = chars_of(s);
    assert(cs@.subrange(0, cs@.len() as int) =~= s@);
    trim_chars(&cs, 0, cs.len())
}

} // verus!

verus! {

/// Whether two strings hold the same characters.
pub fn str_eq(a: &str, b: &str) -> (r: bool)
    ensures
        r == (a@ == b@),
{
    let x = chars_of(a);
    let y = chars_of(b);
    if x.len() != y.len() {
        return false;
    }
    let mut i: usize = 0;
    while i < x.len()
        invariant
            x@ == a@,
            y@ == b@,
            x.len() == y.len(),
            i <= x.len(),
            forall|k: int| 0 <= k < i ==> x@[k] == y@[k],
        decreases x.len() - i,
    {
        if x[i] != y[i] {
            return false;
        }
        i = i + 1;
    }
    assert(x@ =~= y@);
    true
}

/// An owned copy of a string slice.
pub fn owned(s: &str) -> (r: String)
    ensures
        r@ == s@,
{
    s.to_owned()
}

/// The views of a sequence of strings.
pub open spec fn views(v: Seq<String>) -> Seq<Seq<char>> {
    v.map_values(|x: String| x@)
}

/// Splits `s` at every occurrence of `sep` (std's `str::split` on a character).
pub fn split_on_char(s: &str, sep: char) -> (v: Vec<String>)
    ensures
        views(v@) == split_on(s@, sep),
{
    let n = s.unicode_len();
    let mut pieces: Vec<String> = Vec::new();
    let mut cur = String::new();
    let mut i: usize = 0;
    assert(s@.subrange(0, 0) =~= Seq::<char>::empty());
    assert(views(pieces@).push(cur@) =~= seq![Seq::<char>::empty()]);
    while i < n
        invariant
            n == s@.len(),
            i <= n,
            views(pieces@).push(cur@) == split_on(s@.subrange(0, i as int), sep),
        decreases n - i,
    {
        let c = s.get_char(i);
        let ghost t = s@.subrange(0, i + 1);
        proof {
            assert(t.drop_last() =~= s@.subrange(0, i as int));
            assert(t.last() == c);
        }
        if c == sep {
            let done = cur;
            pieces.push(done);
            cur = String::new();
            assert(views(pieces@).push(cur@) =~= split_on(t, sep));
        } else {
            let ghost before = views(pieces@).push(cur@);
            push_char(&mut cur, c);
            assert(views(pieces@).push(cur@) =~= before.update(before.len() - 1, before.last().push(c)));
        }
        i = i + 1;
    }
    assert(s@.subrange(0, n as int) =~= s@);
    pieces.push(cur);
    assert(views(pieces@) =~= split_on(s@, sep));
    pieces
}

/// The pieces of `p`, trimmed, without those that are empty once trimmed.
pub open spec fn nonempty_trimmed(p: Seq<Seq<char>>) -> Seq<Seq<char>>
    decreases p.len(),
{
    if p.len() == 0 {
        Seq::empty()
    } else {
        let rest = nonempty_trimmed(p.drop_last());
        if trimmed(p.last()).len() > 0 {
            rest.push(trimmed(p.last()))
        } else {
            rest
        }
    }
}

/// The comma-separated items of `s`, trimmed, empty ones left out.
pub fn comma_list(s: &str) -> (v: Vec<String>)
    ensures
        views(v@) == nonempty_trimmed(split_on(s@, ',')),
{
    let pieces = split_on_char(s, ',');
    let mut out: Vec<String> = Vec::new();
    let mut i: usize = 0;
    while i < pieces.len()
        invariant
            i <= pieces.len(),
            views(out@) == nonempty_trimmed(views(pieces@).subrange(0, i as int)),
        decreases pieces.len() - i,
    {
        let t = trim(pieces[i].as_str());
        proof {
            let sub = views(pieces@).subrange(0, i + 1);
            assert(sub.drop_last() =~= views(pieces@).subrange(0, i as int));
            assert(sub.last() == pieces@[i as int]@);
        }
        if t.as_str().unicode_len() > 0 {
            out.push(t);
            assert(views(out@) =~= nonempty_trimmed(views(pieces@).subrange(0, i + 1)));
        }
        i = i + 1;
    }
    assert(views(pieces@).subrange(0, pieces@.len() as int) =~= views(pieces@));
    out
}

/// `a` comes before `b`, or equals it, in lexicographic order of code points (the order
/// of `str`'s comparison operators).
pub open spec fn lex_le(a: Seq<char>, b: Seq<char>) -> bool
    decreases a.len(),
{
    if a.len() == 0 {
        true
    } else if b.len() == 0 {
        false
    } else if a[0] != b[0] {
        (a[0] as u32) < (b[0] as u32)
    } else {
        lex_le(a.drop_first(), b.drop_first())
    }
}

/// Lexicographic order is total.
pub proof fn lemma_lex_total(a: Seq<char>, b: Seq<char>)
    ensures
        lex_le(a, b) || lex_le(b, a),
    decreases a.len(),
{
    if a.len() > 0 && b.len() > 0 {
        if a[0] == b[0] {
            lemma_lex_total(a.drop_first(), b.drop_first());
        } else {
            vstd::utf8::char_u32_cast(a[0], a[0] as u32);
            vstd::utf8::char_u32_cast(b[0], b[0] as u32);
        }
    }
}

/// Lexicographic order is antisymmetric.
pub proof fn lemma_lex_antisym(a: Seq<char>, b: Seq<char>)
    requires
        lex_le(a, b),
        lex_le(b, a),
    ensures
        a == b,
    decreases a.len(),
{
    if a.len() > 0 && b.len() > 0 {
        if a[0] == b[0] {
            lemma_lex_antisym(a.drop_first(), b.drop_first());
            assert(a =~= seq![a[0]] + a.drop_first());
            assert(b =~= seq![b[0]] + b.drop_first());
        } else {
            assert((a[0] as u32) < (b[0] as u32));
            assert((b[0] as u32) < (a[0] as u32));
        }
    } else {
        assert(a.len() == 0 && b.len() == 0);
        assert(a =~= b);
    }
}

/// Lexicographic order is transitive.
pub proof fn lemma_lex_trans(a: Seq<char>, b: Seq<char>, c: Seq<char>)
    requires
        lex_le(a, b),
        lex_le(b, c),
    ensures
        lex_le(a, c),
    decreases a.len(),
{
    if a.len() > 0 && b.len() > 0 && c.len() > 0 {
        if a[0] == b[0] && b[0] == c[0] {
            lemma_lex_trans(a.drop_first(), b.drop_first(), c.drop_first());
        }
    }
}

/// Compares two strings in lexicographic order of code points.
pub fn str_le(a: &str, b: &str) -> (r: bool)
    ensures
        r == lex_le(a@, b@),
{
    let ca = chars_of(a);
    let cb = chars_of(b);
    let mut i: usize = 0;
    assert(a@.skip(0) =~= a@);
    assert(b@.skip(0) =~= b@);
    while i < ca.len() && i < cb.len()
        invariant
            i <= ca.len(),
            i <= cb.len(),
            ca@ == a@,
            cb@ == b@,
            ca@.subrange(0, i as int) == cb@.subrange(0, i as int),
            lex_le(a@, b@) == lex_le(a@.skip(i as int), b@.skip(i as int)),
        decreases ca.len() - i,
    {
        let x = ca[i];
        let y = cb[i];
        proof {
            assert(a@.skip(i as int)[0] == x);
            assert(b@.skip(i as int)[0] == y);
        }
        if x != y {
            return (x as u32) < (y as u32);
        }
        proof {
            assert(a@.skip(i as int).drop_first() =~= a@.skip(i + 1));
            assert(b@.skip(i as int).drop_first() =~= b@.skip(i + 1));
            assert(ca@.subrange(0, i + 1) =~= cb@.subrange(0, i + 1));
        }
        i = i + 1;
    }
    i == ca.len()
}

/// Index of the first string of `ids` that starts with `prefix`.
pub fn index_with_prefix(ids: &Vec<String>, prefix: &str) -> (r: Option<usize>)
    ensures
        r matches Some(i) ==> i < ids@.len() && has_prefix(ids@[i as int]@, prefix@),
        r matches Some(i) ==> forall|j: int| 0 <= j < i ==> !has_prefix(#[trigger] ids@[j]@, prefix@),
        r is None ==> forall|j: int| 0 <= j < ids@.len() ==> !has_prefix(#[trigger] ids@[j]@, prefix@),
{
    let mut i: usize = 0;
    while i < ids.len()
        invariant
            i <= ids.len(),
            forall|j: int| 0 <= j < i ==> !has_prefix(#[trigger] ids@[j]@, prefix@),
        decreases ids.len() - i,
    {
        if starts_with(ids[i].as_str(), prefix) {
            return Some(i);
        }
        i = i + 1;
    }
    None
}

/// Each piece of `p`, trimmed.
pub open spec fn all_trimmed(p: Seq<Seq<char>>) -> Seq<Seq<char>>
    decreases p.len(),
{
    if p.len() == 0 {
        Seq::empty()
    } else {
        all_trimmed(p.drop_last()).push(trimmed(p.last()))
    }
}

/// The items of a comma-separated list, each trimmed (none for an empty text).
pub fn comma_items(s: &str) -> (v: Vec<String>)
    ensures
        s@.len() == 0 ==> v@.len() == 0,
        s@.len() > 0 ==> views(v@) == all_trimmed(split_on(s@, ',')),
{
    if s.unicode_len() == 0 {
        return Vec::new();
    }
    let pieces = split_on_char(s, ',');
    let mut out: Vec<String> = Vec::new();
    let mut i: usize = 0;
    while i < pieces.len()
        invariant
            i <= pieces.len(),
            views(out@) == all_trimmed(views(pieces@).subrange(0, i as int)),
        decreases pieces.len() - i,
    {
        let t = trim(pieces[i].as_str());
        proof {
            let sub = views(pieces@).subrange(0, i + 1);
            assert(sub.drop_last() =~= views(pieces@).subrange(0, i as int));
            assert(sub.last() == pieces@[i as int]@);
        }
        out.push(t);
        assert(views(out@) =~= all_trimmed(views(pieces@).subrange(0, i + 1)));
        i = i + 1;
    }
    assert(views(pieces@).subrange(0, pieces@.len() as int) =~= views(pieces@));
    out
}

} // verus!
