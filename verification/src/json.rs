//! JSON text of the request bodies sent to Strapi. String literals are
//! written by `serde_json`; this module assembles members, objects (members in
//! the ascending key order in which `serde_json::Value` writes them), arrays,
//! booleans and integers around them.
use vstd::prelude::*;

use crate::error::join_seq;
use crate::text::{chars_of, extend_chars, extend_str, i64_decimal, int_decimal};

verus! {

/// Lowercase hexadecimal digit of `d` (`0 <= d < 16`).
pub open spec fn hex_digit(d: int) -> char {
    if d < 10 {
        (('0' as int) + d) as char
    } else {
        (('a' as int) + d - 10) as char
    }
}

/// How one character is written inside a JSON string literal.
pub open spec fn json_escape_char(c: char) -> Seq<char> {
    let n = c as int;
    if c == '"' {
        seq!['\\', '"']
    } else if c == '\\' {
        seq!['\\', '\\']
    } else if n == 8 {
        seq!['\\', 'b']
    } else if n == 9 {
        seq!['\\', 't']
    } else if n == 10 {
        seq!['\\', 'n']
    } else if n == 12 {
        seq!['\\', 'f']
    } else if n == 13 {
        seq!['\\', 'r']
    } else if n < 32 {
        seq!['\\', 'u', '0', '0', hex_digit(n / 16), hex_digit(n % 16)]
    } else {
        seq![c]
    }
}

/// The escaped characters of `s`, in order.
pub open spec fn json_escape(s: Seq<char>) -> Seq<char>
    decreases s.len(),
{
    if s.len() == 0 {
        Seq::empty()
    } else {
        json_escape(s.drop_last()) + json_escape_char(s.last())
    }
}

/// The JSON string literal of `s`.
pub open spec fn json_string(s: Seq<char>) -> Seq<char> {
    seq!['"'] + json_escape(s) + seq!['"']
}

/// `"key":value`.
pub open spec fn json_member(key: Seq<char>, value: Seq<char>) -> Seq<char> {
    json_string(key) + seq![':'] + value
}

/// `{m1,m2,...}`.
pub open spec fn json_object(members: Seq<Seq<char>>) -> Seq<char> {
    seq!['{'] + join_seq(members, seq![',']) + seq!['}']
}

/// `[v1,v2,...]`.
pub open spec fn json_array(items: Seq<Seq<char>>) -> Seq<char> {
    seq!['['] + join_seq(items, seq![',']) + seq![']']
}

pub open spec fn json_bool(b: bool) -> Seq<char> {
    if b {
        "true"@
    } else {
        "false"@
    }
}

pub open spec fn json_null() -> Seq<char> {
    "null"@
}

pub open spec fn json_int(n: int) -> Seq<char> {
    int_decimal(n)
}

/// The string literals of a list of strings, as an array.
pub open spec fn json_string_array(items: Seq<Seq<char>>) -> Seq<char> {
    json_array(items.map_values(|s: Seq<char>| json_string(s)))
}

pub open spec fn char_views(v: Seq<Vec<char>>) -> Seq<Seq<char>> {
    v.map_values(|x: Vec<char>| x@)
}

/// `serde_json::to_string` on a string slice. The result is the JSON string
/// literal of `s`: a double quote, then each character of `s` as
/// `json_escape_char` writes it (`"` and `\` behind a backslash, the control
/// characters below U+0020 as `\b \t \n \f \r` or `\u00XX` with lowercase hex
/// digits, every other character unchanged), then a double quote. Serialising a
/// string slice does not fail.
#[verifier::external_body]
fn json_quote(s: &str) -> (r: String)
    ensures
        r@ == json_string(s@),
{
    match serde_json::to_string(s) {
        Ok(t) => t,
        Err(_) => String::new(),
    }
}

/// The JSON string literal of `s`.
pub fn quote(s: &str) -> (out: Vec<char>)
    ensures
        out@ == json_string(s@),
{
    let t = json_quote(s);
    chars_of(t.as_str())
}

/// `"key":value`.
pub fn member(key: &str, value: Vec<char>) -> (out: Vec<char>)
    ensures
        out@ == json_member(key@, value@),
{
    let mut out = quote(key);
    out.push(':');
    extend_chars(&mut out, &value);
    out
}

/// The parts joined with `sep` between consecutive ones.
pub fn join_with(parts: &Vec<Vec<char>>, sep: char) -> (out: Vec<char>)
    ensures
        out@ == join_seq(char_views(parts@), seq![sep]),
{
    let mut out: Vec<char> = Vec::new();
    for i in 0..parts.len()
        invariant
            out@ == join_seq(char_views(parts@.take(i as int)), seq![sep]),
    {
        let ghost before = out@;
        if i > 0 {
            out.push(sep);
        }
        extend_chars(&mut out, &parts[i]);
        assert(char_views(parts@.take(i + 1)).drop_last() =~= char_views(parts@.take(i as int)));
        assert(char_views(parts@.take(i + 1)).last() == parts@[i as int]@);
        if i == 0 {
            assert(out@ =~= before + parts@[i as int]@);
        } else {
            assert(out@ =~= before + seq![sep] + parts@[i as int]@);
        }
    }
    assert(parts@.take(parts.len() as int) == parts@);
    out
}

/// `{m1,m2,...}`.
pub fn object(members: &Vec<Vec<char>>) -> (out: Vec<char>)
    ensures
        out@ == json_object(char_views(members@)),
{
    let mut out: Vec<char> = Vec::new();
    out.push('{');
    let inner = join_with(members, ',');
    extend_chars(&mut out, &inner);
    out.push('}');
    out
}

/// `[v1,v2,...]`.
pub fn array(items: &Vec<Vec<char>>) -> (out: Vec<char>)
    ensures
        out@ == json_array(char_views(items@)),
{
    let mut out: Vec<char> = Vec::new();
    out.push('[');
    let inner = join_with(items, ',');
    extend_chars(&mut out, &inner);
    out.push(']');
    out
}

/// An array of string literals.
pub fn string_array(items: &Vec<String>) -> (out: Vec<char>)
    ensures
        out@ == json_string_array(items@.map_values(|s: String| s@)),
{
    let mut quoted: Vec<Vec<char>> = Vec::new();
    for i in 0..items.len()
        invariant
            quoted.len() == i,
            forall|k: int| 0 <= k < i ==> quoted@[k]@ == json_string(items@[k]@),
    {
        quoted.push(quote(items[i].as_str()));
    }
    let out = array(&quoted);
    assert(char_views(quoted@) =~= items@.map_values(|s: String| s@).map_values(
        |s: Seq<char>| json_string(s),
    ));
    out
}

pub fn bool_text(b: bool) -> (out: Vec<char>)
    ensures
        out@ == json_bool(b),
{
    if b {
        chars_of("true")
    } else {
        chars_of("false")
    }
}

pub fn null_text() -> (out: Vec<char>)
    ensures
        out@ == json_null(),
{
    chars_of("null")
}

pub fn int_text(n: i64) -> (out: Vec<char>)
    ensures
        out@ == json_int(n as int),
{
    i64_decimal(n)
}

} // verus!
