//! Plain HTTP exchange records and the parsing of `Name: value` header lines.
use vstd::prelude::*;

use crate::text::{chars_of, slice_chars, string_of, trim_chars, trim_seq};

verus! {

#[derive(Debug, Clone)]
pub struct HttpResponse {
    pub status_code: u16,
    pub body: String,
}

impl HttpResponse {
    /// 2xx status codes are successes.
    pub fn is_success(&self) -> (r: bool)
        ensures
            r == (200 <= self.status_code < 300),
    {
        200 <= self.status_code && self.status_code < 300
    }
}

#[derive(Debug, Clone)]
pub struct BinaryResponse {
    pub status_code: u16,
    pub data: Vec<u8>,
}

#[derive(Debug, Clone)]
pub struct MultipartFile {
    pub field_name: String,
    pub file_name: String,
    pub content_type: String,
    pub data: Vec<u8>,
}

/// Index of the first `:` in `s`, if any.
pub open spec fn first_colon(s: Seq<char>) -> Option<int> {
    if exists|i: int| 0 <= i < s.len() && s[i] == ':' {
        Some(choose|i: int| 0 <= i < s.len() && s[i] == ':' && forall|k: int| 0 <= k < i ==> s[k] != ':')
    } else {
        None
    }
}

/// A header line split at its first `:` into a trimmed name and a trimmed
/// value; lines without `:` are not headers.
pub open spec fn header_parts(s: Seq<char>) -> Option<(Seq<char>, Seq<char>)> {
    match first_colon(s) {
        Some(i) => Some((trim_seq(s.subrange(0, i)), trim_seq(s.subrange(i + 1, s.len() as int)))),
        None => None,
    }
}

/// Splits a raw `Name: value` header line (`str::split_once(':')` then `trim`).
pub fn split_header_line(raw: &str) -> (r: Option<(String, String)>)
    ensures
        match r {
            Some((n, v)) => header_parts(raw@) == Some((n@, v@)),
            None => header_parts(raw@) is None,
        },
{
    let cs = chars_of(raw);
    let mut i: usize = 0;
    while i < cs.len()
        invariant
            i <= cs.len(),
            cs@ == raw@,
            forall|k: int| 0 <= k < i ==> cs@[k] != ':',
        decreases cs.len() - i,
    {
        if cs[i] == ':' {
            let name = slice_chars(&cs, 0, i);
            let value = slice_chars(&cs, i + 1, cs.len());
            let n = trim_chars(&name);
            let v = trim_chars(&value);
            proof {
                let w = choose|j: int| 0 <= j < raw@.len() && raw@[j] == ':' && forall|k: int| 0 <= k < j ==> raw@[k] != ':';
                assert(0 <= i < raw@.len() && raw@[i as int] == ':');
                if w < i {
                    assert(raw@[w] != ':');
                } else if w > i {
                    assert(raw@[i as int] != ':');
                }
                assert(w == i);
            }
            return Some((string_of(&n), string_of(&v)));
        }
        i += 1;
    }
    None
}

} // verus!
