//! Character-level text operations shared by the services: conversion between
//! `str`/`String` and `Vec<char>`, Unicode whitespace, trimming, searching,
//! splitting and decimal formatting/parsing. Every operation is specified over
//! `Seq<char>` so that callers can state their own contracts over views.
use vstd::prelude::*;

verus! {

// ------------------------------------------------------------------
// Conversions
// ------------------------------------------------------------------

/// `String::push`: appends one character.
#[verifier::external_body]
pub fn push_char(s: &mut String, c: char)
    ensures
        final(s)@ == old(s)@.push(c),
{
    s.push(c);
}

/// The characters of `s`, in order.
pub fn chars_of(s: &str) -> (out: Vec<char>)
    ensures
        out@ == s@,
{
    let mut out: Vec<char> = Vec::new();
    for c in it: s.chars()
        invariant
            out@ == it.seq().take(it.index() as int),
    {
        out.push(c);
    }
    out
}

/// A `String` holding exactly the characters of `v`.
pub fn string_of(v: &Vec<char>) -> (s: String)
    ensures
        s@ == v@,
{
    let mut s = String::new();
    for i in 0..v.len()
        invariant
            s@ == v@.take(i as int),
    {
        push_char(&mut s, v[i]);
        assert(v@.take(i + 1) == v@.take(i as int).push(v@[i as int]));
    }
    assert(v@.take(v.len() as int) == v@);
    s
}

/// Appends every character of `src` to `dst`.
pub fn extend_chars(dst: &mut Vec<char>, src: &Vec<char>)
    ensures
        final(dst)@ == old(dst)@ + src@,
{
    for i in 0..src.len()
        invariant
            dst@ == old(dst)@ + src@.take(i as int),
    {
        dst.push(src[i]);
        assert(src@.take(i + 1) == src@.take(i as int).push(src@[i as int]));
    }
    assert(src@.take(src.len() as int) == src@);
}

/// Appends every character of `src` to `dst`.
pub fn extend_str(dst: &mut Vec<char>, src: &str)
    ensures
        final(dst)@ == old(dst)@ + src@,
{
    let cs = chars_of(src);
    extend_chars(dst, &cs);
}

/// A copy of `v[from..to]`.
pub fn slice_chars(v: &Vec<char>, from: usize, to: usize) -> (out: Vec<char>)
    requires
        from <= to <= v.len(),
    ensures
        out@ == v@.subrange(from as int, to as int),
{
    let mut out: Vec<char> = Vec::new();
    let mut i = from;
    while i < to
        invariant
            from <= i <= to <= v.len(),
            out@ == v@.subrange(from as int, i as int),
        decreases to - i,
    {
        out.push(v[i]);
        assert(v@.subrange(from as int, i + 1) == v@.subrange(from as int, i as int).push(
            v@[i as int],
        ));
        i += 1;
    }
    out
}

/// Whether two character vectors are equal.
pub fn chars_eq(a: &Vec<char>, b: &Vec<char>) -> (r: bool)
    ensures
        r == (a@ == b@),
{
    if a.len() != b.len() {
        return false;
    }
    for i in 0..a.len()
        invariant
            a.len() == b.len(),
            forall|k: int| 0 <= k < i ==> a@[k] == b@[k],
    {
        if a[i] != b[i] {
            return false;
        }
    }
    assert(a@ =~= b@);
    true
}

// ------------------------------------------------------------------
// Character classes
// ------------------------------------------------------------------

/// Unicode `White_Space`, the property behind `char::is_whitespace`.
pub open spec fn is_ws(c: char) -> bool {
    ||| ('\u{9}' <= c && c <= '\u{d}')
    ||| c == ' '
    ||| c == '\u{85}'
    ||| c == '\u{a0}'
    ||| c == '\u{1680}'
    ||| ('\u{2000}' <= c && c <= '\u{200a}')
    ||| c == '\u{2028}'
    ||| c == '\u{2029}'
    ||| c == '\u{202f}'
    ||| c == '\u{205f}'
    ||| c == '\u{3000}'
}

pub fn is_whitespace(c: char) -> (r: bool)
    ensures
        r == is_ws(c),
{
    ('\u{9}' <= c && c <= '\u{d}') || c == ' ' || c == '\u{85}' || c == '\u{a0}' || c
        == '\u{1680}' || ('\u{2000}' <= c && c <= '\u{200a}') || c == '\u{2028}' || c
        == '\u{2029}' || c == '\u{202f}' || c == '\u{205f}' || c == '\u{3000}'
}

/// `char::is_ascii_whitespace`: space, tab, line feed, form feed, carriage return.
pub open spec fn is_ascii_ws(c: char) -> bool {
    c == ' ' || c == '\t' || c == '\n' || c == '\u{c}' || c == '\r'
}

pub fn is_ascii_whitespace(c: char) -> (r: bool)
    ensures
        r == is_ascii_ws(c),
{
    c == ' ' || c == '\t' || c == '\n' || c == '\u{c}' || c == '\r'
}

pub open spec fn is_ascii_alnum(c: char) -> bool {
    ('0' <= c && c <= '9') || ('a' <= c && c <= 'z') || ('A' <= c && c <= 'Z')
}

pub fn is_ascii_alphanumeric(c: char) -> (r: bool)
    ensures
        r == is_ascii_alnum(c),
{
    ('0' <= c && c <= '9') || ('a' <= c && c <= 'z') || ('A' <= c && c <= 'Z')
}

/// `char::to_ascii_lowercase`.
pub open spec fn ascii_lower(c: char) -> char {
    if 'A' <= c && c <= 'Z' {
        ((c as u32) + 32) as char
    } else {
        c
    }
}

pub fn to_ascii_lowercase(c: char) -> (r: char)
    ensures
        r == ascii_lower(c),
{
    if 'A' <= c && c <= 'Z' {
        let u: u32 = (c as u32) + 32;
        assert('a' as u32 <= u <= 'z' as u32);
        let r = u as u8 as char;
        r
    } else {
        c
    }
}

/// The characters of `s` with ASCII letters lowered.
pub open spec fn ascii_lower_seq(s: Seq<char>) -> Seq<char> {
    s.map_values(|c: char| ascii_lower(c))
}

pub fn ascii_lowercase(v: &Vec<char>) -> (out: Vec<char>)
    ensures
        out@ == ascii_lower_seq(v@),
{
    let mut out: Vec<char> = Vec::new();
    for i in 0..v.len()
        invariant
            out@ == ascii_lower_seq(v@.take(i as int)),
    {
        out.push(to_ascii_lowercase(v[i]));
        assert(ascii_lower_seq(v@.take(i + 1)) =~= ascii_lower_seq(v@.take(i as int)).push(
            ascii_lower(v@[i as int]),
        ));
    }
    assert(v@.take(v.len() as int) == v@);
    out
}

/// `str::eq_ignore_ascii_case`.
pub open spec fn eq_ignore_case(a: Seq<char>, b: Seq<char>) -> bool {
    ascii_lower_seq(a) == ascii_lower_seq(b)
}

pub fn eq_ignore_ascii_case(a: &Vec<char>, b: &Vec<char>) -> (r: bool)
    ensures
        r == eq_ignore_case(a@, b@),
{
    let la = ascii_lowercase(a);
    let lb = ascii_lowercase(b);
    chars_eq(&la, &lb)
}

// ------------------------------------------------------------------
// Trimming
// ------------------------------------------------------------------

/// Leading characters dropped while `p` holds.
pub open spec fn drop_while_start(s: Seq<char>, p: spec_fn(char) -> bool) -> Seq<char>
    decreases s.len(),
{
    if s.len() > 0 && p(s[0]) {
        drop_while_start(s.subrange(1, s.len() as int), p)
    } else {
        s
    }
}

/// Trailing characters dropped while `p` holds.
pub open spec fn drop_while_end(s: Seq<char>, p: spec_fn(char) -> bool) -> Seq<char>
    decreases s.len(),
{
    if s.len() > 0 && p(s[s.len() - 1]) {
        drop_while_end(s.subrange(0, s.len() - 1), p)
    } else {
        s
    }
}

pub proof fn lemma_drop_while_start(s: Seq<char>, p: spec_fn(char) -> bool, i: int)
    requires
        0 <= i <= s.len(),
        forall|k: int| 0 <= k < i ==> p(s[k]),
    ensures
        drop_while_start(s, p) == drop_while_start(s.subrange(i, s.len() as int), p),
    decreases i,
{
    if i > 0 {
        let t = s.subrange(1, s.len() as int);
        lemma_drop_while_start(t, p, i - 1);
        assert(t.subrange(i - 1, t.len() as int) =~= s.subrange(i, s.len() as int));
    } else {
        assert(s.subrange(0, s.len() as int) =~= s);
    }
}

pub proof fn lemma_drop_while_end(s: Seq<char>, p: spec_fn(char) -> bool, j: int)
    requires
        0 <= j <= s.len(),
        forall|k: int| j <= k < s.len() ==> p(s[k]),
    ensures
        drop_while_end(s, p) == drop_while_end(s.subrange(0, j), p),
    decreases s.len() - j,
{
    if j < s.len() {
        let t = s.subrange(0, s.len() - 1);
        lemma_drop_while_end(t, p, j);
        assert(t.subrange(0, j) =~= s.subrange(0, j));
    } else {
        assert(s.subrange(0, s.len() as int) =~= s);
    }
}

pub open spec fn ws_pred() -> spec_fn(char) -> bool {
    |c: char| is_ws(c)
}

/// `str::trim`: Unicode whitespace removed from both ends.
pub open spec fn trim_seq(s: Seq<char>) -> Seq<char> {
    drop_while_end(drop_while_start(s, ws_pred()), ws_pred())
}

/// `str::trim_end`.
pub open spec fn trim_end_seq(s: Seq<char>) -> Seq<char> {
    drop_while_end(s, ws_pred())
}

/// Returns the bounds `[i, j)` such that `v[i..j]` is `v` with the
/// characters satisfying `p` removed from both ends.
fn trim_bounds_ws(v: &Vec<char>) -> (r: (usize, usize))
    ensures
        r.0 <= r.1 <= v.len(),
        v@.subrange(r.0 as int, r.1 as int) == trim_seq(v@),
{
    let n = v.len();
    let mut i: usize = 0;
    while i < n && is_whitespace(v[i])
        invariant
            i <= n == v.len(),
            forall|k: int| 0 <= k < i ==> is_ws(v@[k]),
        decreases n - i,
    {
        i += 1;
    }
    proof {
        lemma_drop_while_start(v@, ws_pred(), i as int);
    }
    let ghost t = v@.subrange(i as int, n as int);
    assert(drop_while_start(t, ws_pred()) == t);
    let mut j: usize = n;
    while j > i && is_whitespace(v[j - 1])
        invariant
            i <= j <= n == v.len(),
            forall|k: int| j <= k < n ==> is_ws(v@[k]),
        decreases j,
    {
        j -= 1;
    }
    proof {
        lemma_drop_while_end(t, ws_pred(), (j - i) as int);
        assert(t.subrange(0, (j - i) as int) =~= v@.subrange(i as int, j as int));
        let u = v@.subrange(i as int, j as int);
        if u.len() > 0 {
            assert(!is_ws(u[u.len() - 1]));
        }
        assert(drop_while_end(u, ws_pred()) == u);
    }
    (i, j)
}

/// `str::trim`.
pub fn trim_chars(v: &Vec<char>) -> (out: Vec<char>)
    ensures
        out@ == trim_seq(v@),
{
    let (i, j) = trim_bounds_ws(v);
    slice_chars(v, i, j)
}

/// `str::trim_end`.
pub fn trim_end_chars(v: &Vec<char>) -> (out: Vec<char>)
    ensures
        out@ == trim_end_seq(v@),
{
    let n = v.len();
    let mut j: usize = n;
    while j > 0 && is_whitespace(v[j - 1])
        invariant
            j <= n == v.len(),
            forall|k: int| j <= k < n ==> is_ws(v@[k]),
        decreases j,
    {
        j -= 1;
    }
    proof {
        lemma_drop_while_end(v@, ws_pred(), j as int);
        let u = v@.subrange(0, j as int);
        if u.len() > 0 {
            assert(!is_ws(u[u.len() - 1]));
        }
        assert(drop_while_end(u, ws_pred()) == u);
    }
    slice_chars(v, 0, j)
}

/// `str::trim` on a string slice.
pub fn trim_str(s: &str) -> (out: Vec<char>)
    ensures
        out@ == trim_seq(s@),
{
    let v = chars_of(s);
    trim_chars(&v)
}

pub open spec fn is_char_pred(c: char) -> spec_fn(char) -> bool {
    |x: char| x == c
}

/// `str::trim_matches(c)` for a single character.
pub open spec fn trim_char_seq(s: Seq<char>, c: char) -> Seq<char> {
    drop_while_end(drop_while_start(s, is_char_pred(c)), is_char_pred(c))
}

/// `str::trim_end_matches(c)` for a single character.
pub open spec fn trim_end_char_seq(s: Seq<char>, c: char) -> Seq<char> {
    drop_while_end(s, is_char_pred(c))
}

pub fn trim_matches_char(v: &Vec<char>, c: char) -> (out: Vec<char>)
    ensures
        out@ == trim_char_seq(v@, c),
{
    let n = v.len();
    let mut i: usize = 0;
    while i < n && v[i] == c
        invariant
            i <= n == v.len(),
            forall|k: int| 0 <= k < i ==> v@[k] == c,
        decreases n - i,
    {
        i += 1;
    }
    proof {
        lemma_drop_while_start(v@, is_char_pred(c), i as int);
    }
    let ghost t = v@.subrange(i as int, n as int);
    assert(drop_while_start(t, is_char_pred(c)) == t);
    let mut j: usize = n;
    while j > i && v[j - 1] == c
        invariant
            i <= j <= n == v.len(),
            forall|k: int| j <= k < n ==> v@[k] == c,
        decreases j,
    {
        j -= 1;
    }
    proof {
        lemma_drop_while_end(t, is_char_pred(c), (j - i) as int);
        assert(t.subrange(0, (j - i) as int) =~= v@.subrange(i as int, j as int));
        let u = v@.subrange(i as int, j as int);
        if u.len() > 0 {
            assert(u[u.len() - 1] != c);
        }
        assert(drop_while_end(u, is_char_pred(c)) == u);
    }
    slice_chars(v, i, j)
}

pub fn trim_end_matches_char(v: &Vec<char>, c: char) -> (out: Vec<char>)
    ensures
        out@ == trim_end_char_seq(v@, c),
{
    let n = v.len();
    let mut j: usize = n;
    while j > 0 && v[j - 1] == c
        invariant
            j <= n == v.len(),
            forall|k: int| j <= k < n ==> v@[k] == c,
        decreases j,
    {
        j -= 1;
    }
    proof {
        lemma_drop_while_end(v@, is_char_pred(c), j as int);
        let u = v@.subrange(0, j as int);
        if u.len() > 0 {
            assert(u[u.len() - 1] != c);
        }
        assert(drop_while_end(u, is_char_pred(c)) == u);
    }
    slice_chars(v, 0, j)
}

// ------------------------------------------------------------------
// Searching
// ------------------------------------------------------------------

/// `needle` occurs in `hay` starting at position `i`.
pub open spec fn occurs_at(hay: Seq<char>, needle: Seq<char>, i: int) -> bool {
    0 <= i && i + needle.len() <= hay.len() && hay.subrange(i, i + needle.len()) == needle
}

/// `str::contains` for a string needle.
pub open spec fn contains_seq(hay: Seq<char>, needle: Seq<char>) -> bool {
    exists|i: int| occurs_at(hay, needle, i)
}

/// `str::starts_with` for a string prefix.
pub open spec fn starts_with_seq(s: Seq<char>, prefix: Seq<char>) -> bool {
    occurs_at(s, prefix, 0)
}

pub fn matches_at(hay: &Vec<char>, needle: &Vec<char>, i: usize) -> (r: bool)
    ensures
        r == occurs_at(hay@, needle@, i as int),
{
    if i > hay.len() || needle.len() > hay.len() - i {
        return false;
    }
    for k in 0..needle.len()
        invariant
            i + needle.len() <= hay.len(),
            forall|m: int| 0 <= m < k ==> hay@[i + m] == needle@[m],
    {
        if hay[i + k] != needle[k] {
            return false;
        }
    }
    assert(hay@.subrange(i as int, i + needle.len()) =~= needle@);
    true
}

pub fn contains_chars(hay: &Vec<char>, needle: &Vec<char>) -> (r: bool)
    ensures
        r == contains_seq(hay@, needle@),
{
    if needle.len() > hay.len() {
        return false;
    }
    let last = hay.len() - needle.len();
    let mut i: usize = 0;
    while i <= last
        invariant
            last == hay.len() - needle.len(),
            i <= last + 1,
            forall|k: int| 0 <= k < i ==> !occurs_at(hay@, needle@, k),
        decreases last + 1 - i,
    {
        if matches_at(hay, needle, i) {
            return true;
        }
        if i == last {
            return false;
        }
        i += 1;
    }
    false
}

/// `hay` contains the string literal (or slice) `needle`.
pub fn contains_str(hay: &Vec<char>, needle: &str) -> (r: bool)
    ensures
        r == contains_seq(hay@, needle@),
{
    let n = chars_of(needle);
    contains_chars(hay, &n)
}

pub fn starts_with_str(s: &Vec<char>, prefix: &str) -> (r: bool)
    ensures
        r == starts_with_seq(s@, prefix@),
{
    let p = chars_of(prefix);
    matches_at(s, &p, 0)
}

/// Whether `c` occurs in `s`.
pub fn has_char(s: &Vec<char>, c: char) -> (r: bool)
    ensures
        r == s@.contains(c),
{
    for i in 0..s.len()
        invariant
            forall|k: int| 0 <= k < i ==> s@[k] != c,
    {
        if s[i] == c {
            assert(s@[i as int] == c);
            return true;
        }
    }
    false
}

// ------------------------------------------------------------------
// Decimal formatting and parsing
// ------------------------------------------------------------------

pub open spec fn digit_char(d: int) -> char {
    (('0' as int) + d) as char
}

/// The decimal digits of a natural number, most significant first.
pub open spec fn nat_digits(n: nat) -> Seq<char>
    decreases n,
{
    if n < 10 {
        seq![digit_char(n as int)]
    } else {
        nat_digits(n / 10).push(digit_char((n % 10) as int))
    }
}

/// `Display` of a signed integer: an optional `-` followed by the digits.
pub open spec fn int_decimal(n: int) -> Seq<char> {
    if n < 0 {
        seq!['-'] + nat_digits((-n) as nat)
    } else {
        nat_digits(n as nat)
    }
}

fn digit(d: u64) -> (c: char)
    requires
        d < 10,
    ensures
        c == digit_char(d as int),
{
    let u: u8 = (48 + d) as u8;
    u as char
}

/// Decimal digits of `n`.
pub fn u64_digits(n: u64) -> (out: Vec<char>)
    ensures
        out@ == nat_digits(n as nat),
    decreases n,
{
    if n < 10 {
        let mut v: Vec<char> = Vec::new();
        v.push(digit(n));
        v
    } else {
        let mut v = u64_digits(n / 10);
        v.push(digit(n % 10));
        v
    }
}

/// `i64::to_string`.
pub fn i64_decimal(n: i64) -> (out: Vec<char>)
    ensures
        out@ == int_decimal(n as int),
{
    if n < 0 {
        let m: u64 = if n == i64::MIN {
            9223372036854775808u64
        } else {
            (-n) as u64
        };
        let d = u64_digits(m);
        let mut out: Vec<char> = Vec::new();
        out.push('-');
        extend_chars(&mut out, &d);
        assert(out@ =~= seq!['-'] + nat_digits((-(n as int)) as nat));
        out
    } else {
        u64_digits(n as u64)
    }
}

/// The value of a digit character in `radix` (10 or 16), if it is one.
pub open spec fn digit_value(c: char, radix: int) -> Option<int> {
    if '0' <= c && c <= '9' {
        if (c as int) - ('0' as int) < radix {
            Some((c as int) - ('0' as int))
        } else {
            None
        }
    } else if radix == 16 && 'a' <= c && c <= 'f' {
        Some((c as int) - ('a' as int) + 10)
    } else if radix == 16 && 'A' <= c && c <= 'F' {
        Some((c as int) - ('A' as int) + 10)
    } else {
        None
    }
}

/// The value of a non-empty digit string in `radix`, if every character is a digit.
pub open spec fn digits_value(s: Seq<char>, radix: int) -> Option<int>
    decreases s.len(),
{
    if s.len() == 0 {
        Some(0)
    } else {
        match (digits_value(s.drop_last(), radix), digit_value(s.last(), radix)) {
            (Some(h), Some(d)) => Some(h * radix + d),
            _ => None,
        }
    }
}

pub proof fn lemma_digits_value_nonneg(s: Seq<char>, radix: int)
    requires
        radix == 10 || radix == 16,
    ensures
        digits_value(s, radix) matches Some(v) ==> v >= 0,
    decreases s.len(),
{
    if s.len() > 0 {
        lemma_digits_value_nonneg(s.drop_last(), radix);
    }
}

/// `u32::from_str_radix(s, radix)` for radix 10 or 16: an optional `+`, then at
/// least one digit, with a value that fits in `u32`.
pub open spec fn parse_u32_spec(s: Seq<char>, radix: int) -> Option<u32> {
    let body = if s.len() > 0 && s[0] == '+' {
        s.subrange(1, s.len() as int)
    } else {
        s
    };
    if body.len() == 0 {
        None
    } else {
        match digits_value(body, radix) {
            Some(v) => if v <= u32::MAX {
                Some(v as u32)
            } else {
                None
            },
            None => None,
        }
    }
}

/// `i64::from_str`: an optional sign, then at least one decimal digit, with a
/// value that fits in `i64`.
pub open spec fn parse_i64_spec(s: Seq<char>) -> Option<i64> {
    let neg = s.len() > 0 && s[0] == '-';
    let body = if s.len() > 0 && (s[0] == '+' || s[0] == '-') {
        s.subrange(1, s.len() as int)
    } else {
        s
    };
    if body.len() == 0 {
        None
    } else {
        match digits_value(body, 10) {
            Some(v) => {
                let w = if neg {
                    -v
                } else {
                    v
                };
                if i64::MIN <= w <= i64::MAX {
                    Some(w as i64)
                } else {
                    None
                }
            },
            None => None,
        }
    }
}

fn digit_value_exec(c: char, radix: u32) -> (r: Option<u32>)
    requires
        radix == 10 || radix == 16,
    ensures
        r matches Some(d) ==> digit_value(c, radix as int) == Some(d as int) && d < radix,
        r is None ==> digit_value(c, radix as int) is None,
{
    if '0' <= c && c <= '9' {
        let d = (c as u32) - ('0' as u32);
        if d < radix {
            Some(d)
        } else {
            None
        }
    } else if radix == 16 && 'a' <= c && c <= 'f' {
        Some((c as u32) - ('a' as u32) + 10)
    } else if radix == 16 && 'A' <= c && c <= 'F' {
        Some((c as u32) - ('A' as u32) + 10)
    } else {
        None
    }
}

/// Value of `v[from..]` as digits in `radix`, or `None` when a character is not a
/// digit or the value exceeds `bound`.
fn digits_bounded(v: &Vec<char>, from: usize, radix: u32, bound: u64) -> (r: Option<u64>)
    requires
        from <= v.len(),
        radix == 10 || radix == 16,
        16 <= bound <= 9223372036854775808u64,
    ensures
        r matches Some(x) ==> digits_value(v@.subrange(from as int, v.len() as int), radix as int)
            == Some(x as int) && x <= bound,
        r is None ==> (digits_value(v@.subrange(from as int, v.len() as int), radix as int) is None
            || digits_value(v@.subrange(from as int, v.len() as int), radix as int)->0 > bound),
{
    let mut acc: u64 = 0;
    let mut i = from;
    let mut over = false;
    let mut bad = false;
    while i < v.len()
        invariant
            from <= i <= v.len(),
            radix == 10 || radix == 16,
            16 <= bound <= 9223372036854775808u64,
            !bad ==> (digits_value(v@.subrange(from as int, i as int), radix as int) matches Some(
                x,
            ) && (over ==> x > bound) && (!over ==> x == acc && acc <= bound)),
            bad ==> digits_value(v@.subrange(from as int, i as int), radix as int) is None,
        decreases v.len() - i,
    {
        let ghost prev = v@.subrange(from as int, i as int);
        let ghost next = v@.subrange(from as int, i + 1);
        assert(next.drop_last() =~= prev);
        assert(next.last() == v@[i as int]);
        proof {
            lemma_digits_value_nonneg(prev, radix as int);
        }
        match digit_value_exec(v[i], radix) {
            None => {
                bad = true;
            },
            Some(d) => {
                if !bad && !over {
                    if acc > (bound - d as u64) / (radix as u64) {
                        proof {
                            assert(acc * radix + d > bound) by (nonlinear_arith)
                                requires
                                    acc > (bound - d) / (radix as int),
                                    radix > 0,
                                    d <= bound,
                            ;
                        }
                        over = true;
                    } else {
                        proof {
                            assert(acc * radix + d <= bound) by (nonlinear_arith)
                                requires
                                    acc <= (bound - d) / (radix as int),
                                    radix > 0,
                                    d <= bound,
                            ;
                        }
                        acc = acc * (radix as u64) + d as u64;
                    }
                } else if !bad && over {
                    proof {
                        let x = digits_value(prev, radix as int)->0;
                        assert(x * radix + d > bound) by (nonlinear_arith)
                            requires
                                x > bound,
                                radix > 0,
                                d >= 0,
                        ;
                    }
                }
            },
        }
        i += 1;
    }
    if bad || over {
        None
    } else {
        Some(acc)
    }
}

/// `u32::from_str_radix` for radix 10 or 16.
pub fn parse_u32(v: &Vec<char>, radix: u32) -> (r: Option<u32>)
    requires
        radix == 10 || radix == 16,
    ensures
        r == parse_u32_spec(v@, radix as int),
{
    let start: usize = if v.len() > 0 && v[0] == '+' {
        1
    } else {
        0
    };
    assert(start == 0 ==> v@.subrange(0, v.len() as int) =~= v@);
    if start >= v.len() {
        return None;
    }
    match digits_bounded(v, start, radix, 4294967295u64) {
        Some(x) => Some(x as u32),
        None => None,
    }
}

/// `str::parse::<i64>`.
pub fn parse_i64(v: &Vec<char>) -> (r: Option<i64>)
    ensures
        r == parse_i64_spec(v@),
{
    let signed = v.len() > 0 && (v[0] == '+' || v[0] == '-');
    let neg = v.len() > 0 && v[0] == '-';
    let start: usize = if signed {
        1
    } else {
        0
    };
    assert(start == 0 ==> v@.subrange(0, v.len() as int) =~= v@);
    if start >= v.len() {
        return None;
    }
    let bound: u64 = if neg {
        9223372036854775808u64
    } else {
        9223372036854775807u64
    };
    proof {
        lemma_digits_value_nonneg(v@.subrange(start as int, v.len() as int), 10);
    }
    match digits_bounded(v, start, 10, bound) {
        Some(x) => {
            if neg {
                if x == 9223372036854775808u64 {
                    Some(i64::MIN)
                } else {
                    Some(-(x as i64))
                }
            } else {
                Some(x as i64)
            }
        },
        None => None,
    }
}

// ------------------------------------------------------------------
// Positions of a character
// ------------------------------------------------------------------

/// Index of the first occurrence of `c` in `s`.
pub open spec fn first_index_of(s: Seq<char>, c: char) -> Option<int>
    decreases s.len(),
{
    if s.len() == 0 {
        None
    } else {
        match first_index_of(s.drop_last(), c) {
            Some(i) => Some(i),
            None => if s.last() == c {
                Some(s.len() - 1)
            } else {
                None
            },
        }
    }
}

/// Index of the last occurrence of `c` in `s`.
pub open spec fn last_index_of(s: Seq<char>, c: char) -> Option<int>
    decreases s.len(),
{
    if s.len() == 0 {
        None
    } else if s.last() == c {
        Some(s.len() - 1)
    } else {
        last_index_of(s.drop_last(), c)
    }
}

/// `s` up to (excluding) the first `c` (`s.split(c).next()`).
pub open spec fn before_first(s: Seq<char>, c: char) -> Seq<char> {
    match first_index_of(s, c) {
        Some(i) => s.take(i),
        None => s,
    }
}

/// `s` after the last `c` (`s.rsplit(c).next()`).
pub open spec fn after_last(s: Seq<char>, c: char) -> Seq<char> {
    match last_index_of(s, c) {
        Some(i) => s.skip(i + 1),
        None => s,
    }
}

pub proof fn lemma_first_index_of(s: Seq<char>, c: char, k: int)
    requires
        0 <= k <= s.len(),
        forall|m: int| 0 <= m < k ==> s[m] != c,
    ensures
        k < s.len() && s[k] == c ==> first_index_of(s, c) == Some(k),
        k == s.len() ==> first_index_of(s, c) is None,
    decreases s.len(),
{
    if s.len() > 0 {
        if k < s.len() {
            if k < s.len() - 1 {
                lemma_first_index_of(s.drop_last(), c, k);
            } else {
                lemma_first_index_of(s.drop_last(), c, k);
            }
        } else {
            lemma_first_index_of(s.drop_last(), c, k - 1);
        }
    }
}

pub fn first_index(v: &Vec<char>, c: char) -> (r: Option<usize>)
    ensures
        match r {
            Some(i) => first_index_of(v@, c) == Some(i as int) && i < v.len(),
            None => first_index_of(v@, c) is None,
        },
{
    for i in 0..v.len()
        invariant
            forall|m: int| 0 <= m < i ==> v@[m] != c,
    {
        if v[i] == c {
            proof {
                lemma_first_index_of(v@, c, i as int);
            }
            return Some(i);
        }
    }
    proof {
        lemma_first_index_of(v@, c, v.len() as int);
    }
    None
}

pub proof fn lemma_last_index_of(s: Seq<char>, c: char, k: int)
    requires
        0 <= k <= s.len(),
        forall|m: int| k <= m < s.len() ==> s[m] != c,
    ensures
        k > 0 && s[k - 1] == c ==> last_index_of(s, c) == Some(k - 1),
        k == 0 ==> last_index_of(s, c) is None,
    decreases s.len(),
{
    if s.len() > 0 && k < s.len() {
        lemma_last_index_of(s.drop_last(), c, k);
    } else if s.len() > 0 && k == s.len() {
        if s[k - 1] != c {
            lemma_last_index_of(s.drop_last(), c, k - 1);
        }
    }
}

pub fn last_index(v: &Vec<char>, c: char) -> (r: Option<usize>)
    ensures
        match r {
            Some(i) => last_index_of(v@, c) == Some(i as int) && i < v.len(),
            None => last_index_of(v@, c) is None,
        },
{
    let mut k = v.len();
    while k > 0
        invariant
            k <= v.len(),
            forall|m: int| k <= m < v.len() ==> v@[m] != c,
        decreases k,
    {
        if v[k - 1] == c {
            proof {
                lemma_last_index_of(v@, c, k as int);
            }
            return Some(k - 1);
        }
        k -= 1;
    }
    proof {
        lemma_last_index_of(v@, c, 0);
    }
    None
}

pub fn before_first_char(v: &Vec<char>, c: char) -> (r: Vec<char>)
    ensures
        r@ == before_first(v@, c),
{
    match first_index(v, c) {
        Some(i) => slice_chars(v, 0, i),
        None => slice_chars(v, 0, v.len()),
    }
}

pub fn after_last_char(v: &Vec<char>, c: char) -> (r: Vec<char>)
    ensures
        r@ == after_last(v@, c),
{
    match last_index(v, c) {
        Some(i) => slice_chars(v, i + 1, v.len()),
        None => slice_chars(v, 0, v.len()),
    }
}

// ------------------------------------------------------------------
// UTF-8 lengths
// ------------------------------------------------------------------

/// Bytes of a character in UTF-8 (`char::len_utf8`).
pub open spec fn utf8_units(c: char) -> nat {
    if (c as u32) < 0x80 {
        1
    } else if (c as u32) < 0x800 {
        2
    } else if (c as u32) < 0x10000 {
        3
    } else {
        4
    }
}

/// Length in bytes of the UTF-8 encoding (`str::len`).
pub open spec fn utf8_len(s: Seq<char>) -> nat
    decreases s.len(),
{
    if s.len() == 0 {
        0
    } else {
        utf8_len(s.drop_last()) + utf8_units(s.last())
    }
}

pub fn char_len_utf8(c: char) -> (r: usize)
    ensures
        r == utf8_units(c),
{
    let u = c as u32;
    if u < 0x80 {
        1
    } else if u < 0x800 {
        2
    } else if u < 0x10000 {
        3
    } else {
        4
    }
}

pub proof fn lemma_utf8_take(s: Seq<char>, k: int)
    requires
        0 <= k < s.len(),
    ensures
        utf8_len(s.take(k + 1)) == utf8_len(s.take(k)) + utf8_units(s[k]),
{
    assert(s.take(k + 1).drop_last() =~= s.take(k));
}

/// Whether the UTF-8 length of `v` is at most `max`.
pub fn utf8_len_at_most(v: &Vec<char>, max: usize) -> (r: bool)
    ensures
        r == (utf8_len(v@) <= max),
{
    let mut total: usize = 0;
    let mut k: usize = 0;
    while k < v.len()
        invariant
            k <= v.len(),
            total == utf8_len(v@.take(k as int)),
            total <= max,
        decreases v.len() - k,
    {
        proof {
            lemma_utf8_take(v@, k as int);
        }
        let n = char_len_utf8(v[k]);
        if n > max - total {
            proof {
                lemma_utf8_prefix_mono(v@, k + 1);
            }
            return false;
        }
        total = total + n;
        k += 1;
    }
    assert(v@.take(v.len() as int) == v@);
    true
}

pub proof fn lemma_utf8_prefix_mono(s: Seq<char>, k: int)
    requires
        0 <= k <= s.len(),
    ensures
        utf8_len(s.take(k)) <= utf8_len(s),
    decreases s.len() - k,
{
    if k < s.len() {
        lemma_utf8_take(s, k);
        lemma_utf8_prefix_mono(s, k + 1);
    } else {
        assert(s.take(k) == s);
    }
}

/// `truncate(s, n)` of the services: `s` itself when its UTF-8 length is at most
/// `n` bytes, else its first `n` characters (all of them when it has fewer).
pub open spec fn truncate_spec(s: Seq<char>, n: nat) -> Seq<char> {
    if utf8_len(s) <= n {
        s
    } else if s.len() <= n {
        s
    } else {
        s.take(n as int)
    }
}

/// Shortens a text for a log line or a failure reason (see `truncate_spec`).
pub fn truncate(s: &str, n: usize) -> (r: String)
    ensures
        r@ == truncate_spec(s@, n as nat),
{
    let v = chars_of(s);
    if utf8_len_at_most(&v, n) || v.len() <= n {
        string_of(&v)
    } else {
        let t = slice_chars(&v, 0, n);
        assert(t@ =~= s@.take(n as int));
        string_of(&t)
    }
}

} // verus!
