//! HTML -> clean text: decodes numeric character references, strips tags
//! (block elements and `<br>` become spaces), collapses whitespace, and caps
//! excerpts to Strapi's length limit counted in UTF-16 code units.
use vstd::prelude::*;

use crate::html::{html_fragment_nodes, parse_fragment_nodes, HtmlNode, PreNode};
use crate::text::{
    chars_of, eq_ignore_ascii_case, eq_ignore_case, extend_chars, extend_str, is_whitespace, is_ws,
    parse_u32, parse_u32_spec, slice_chars, string_of, trim_chars, trim_end_seq, trim_end_chars,
    trim_seq,
};

verus! {

/// Strapi's `Excerpt` field holds at most this many UTF-16 code units.
pub const EXCERPT_MAX_CHARS: usize = 300;

/// Element names after which a space separates the text.
pub open spec fn block_tag_list() -> Seq<&'static str> {
    seq![
        "br", "p", "div", "li", "section", "article", "blockquote", "header", "footer",
        "tr", "td", "th", "ul", "ol", "h1", "h2", "h3", "h4", "h5", "h6",
    ]
}

pub open spec fn is_block_spec(tag: Seq<char>) -> bool {
    exists|i: int| 0 <= i < block_tag_list().len() && eq_ignore_case(block_tag_list()[i]@, tag)
}

// ---------------- numeric character references ----------------

/// `char::from_u32`: `Some` exactly for Unicode scalar values.
pub open spec fn scalar_of(code: u32) -> Option<char> {
    if code < 0xD800 || (0xE000 <= code && code <= 0x10FFFF) {
        Some(code as char)
    } else {
        None
    }
}

/// `char::from_u32`, whose documentation gives `Some` for scalar values
/// (below U+D800, or U+E000..=U+10FFFF) and `None` otherwise.
#[verifier::external_body]
fn char_from_u32(code: u32) -> (r: Option<char>)
    ensures
        r == scalar_of(code),
{
    char::from_u32(code)
}

/// Position of the first `;` at or after `p`, or the end of the text.
pub open spec fn semicolon_scan(s: Seq<char>, p: int) -> int
    decreases s.len() - p,
{
    if p < s.len() && s[p] != ';' {
        semicolon_scan(s, p + 1)
    } else {
        p
    }
}

/// The code point named by the digits of a reference: hexadecimal digits after
/// `x`/`X`, decimal digits otherwise (at least one digit, no sign).
pub open spec fn reference_code(raw: Seq<char>) -> Option<u32> {
    if raw.len() > 0 && (raw[0] == 'x' || raw[0] == 'X') {
        let hex = raw.subrange(1, raw.len() as int);
        if hex.len() > 0 && hex[0] != '+' {
            parse_u32_spec(hex, 16)
        } else {
            None
        }
    } else if raw.len() > 0 && raw[0] != '+' {
        parse_u32_spec(raw, 10)
    } else {
        None
    }
}

/// A numeric reference `&#...;` decoded at position `i`: the character and the
/// position after the `;`.
pub open spec fn reference_at(s: Seq<char>, i: int) -> Option<(char, int)> {
    if 0 <= i && i + 1 < s.len() && s[i] == '&' && s[i + 1] == '#' {
        let p = semicolon_scan(s, i + 2);
        if p < s.len() && s[p] == ';' {
            match reference_code(s.subrange(i + 2, p)) {
                Some(code) => match scalar_of(code) {
                    Some(c) => Some((c, p + 1)),
                    None => None,
                },
                None => None,
            }
        } else {
            None
        }
    } else {
        None
    }
}

/// The text from position `i` on with every numeric reference decoded.
pub open spec fn decode_from(s: Seq<char>, i: int) -> Seq<char>
    decreases s.len() - i,
{
    if i < 0 || i >= s.len() {
        Seq::empty()
    } else {
        match reference_at(s, i) {
            Some((c, j)) => if j > i {
                seq![c] + decode_from(s, j)
            } else {
                Seq::empty()
            },
            None => seq![s[i]] + decode_from(s, i + 1),
        }
    }
}

pub open spec fn decode_spec(s: Seq<char>) -> Seq<char> {
    decode_from(s, 0)
}

fn reference_at_exec(s: &Vec<char>, i: usize) -> (r: Option<(char, usize)>)
    requires
        i < s.len(),
    ensures
        match r {
            Some((c, j)) => reference_at(s@, i as int) == Some((c, j as int)) && i < j <= s.len(),
            None => reference_at(s@, i as int) is None,
        },
{
    if i + 1 < s.len() && s[i] == '&' && s[i + 1] == '#' {
        let mut p = i + 2;
        while p < s.len() && s[p] != ';'
            invariant
                i + 2 <= p <= s.len(),
                semicolon_scan(s@, i + 2) == semicolon_scan(s@, p as int),
            decreases s.len() - p,
        {
            p += 1;
        }
        if p < s.len() && s[p] == ';' {
            let raw = slice_chars(s, i + 2, p);
            let code = if raw.len() > 0 && (raw[0] == 'x' || raw[0] == 'X') {
                let hex = slice_chars(&raw, 1, raw.len());
                if hex.len() > 0 && hex[0] != '+' {
                    parse_u32(&hex, 16)
                } else {
                    None
                }
            } else if raw.len() > 0 && raw[0] != '+' {
                parse_u32(&raw, 10)
            } else {
                None
            };
            match code {
                Some(cp) => match char_from_u32(cp) {
                    Some(c) => Some((c, p + 1)),
                    None => None,
                },
                None => None,
            }
        } else {
            None
        }
    } else {
        None
    }
}

// ---------------- whitespace collapsing ----------------

/// Collapsing state: the text so far and whether it ends in a collapsed space.
pub open spec fn collapse_step(st: (Seq<char>, bool), c: char) -> (Seq<char>, bool) {
    if c == '\r' {
        st
    } else if is_ws(c) {
        if !st.1 && st.0.len() > 0 {
            (st.0.push(' '), true)
        } else {
            st
        }
    } else {
        (st.0.push(c), false)
    }
}

pub open spec fn collapse_state(s: Seq<char>) -> (Seq<char>, bool)
    decreases s.len(),
{
    if s.len() == 0 {
        (Seq::empty(), false)
    } else {
        collapse_step(collapse_state(s.drop_last()), s.last())
    }
}

/// Carriage returns dropped, every run of whitespace after some text turned
/// into one space, then trimmed.
pub open spec fn collapse_spec(s: Seq<char>) -> Seq<char> {
    trim_seq(collapse_state(s).0)
}

// ---------------- plain text of a node sequence ----------------

/// Walking state: open elements awaiting their end (depth, is block), the depth
/// of a subtree being skipped, and the text so far.
pub struct TextWalk {
    pub stack: Seq<(usize, bool)>,
    pub skip: Option<usize>,
    pub out: Seq<char>,
}

/// Ends every open element at depth `d` or deeper, a space after each block.
pub open spec fn close_frames(stack: Seq<(usize, bool)>, out: Seq<char>, d: usize) -> (Seq<
    (usize, bool),
>, Seq<char>)
    decreases stack.len(),
{
    if stack.len() > 0 && stack.last().0 >= d {
        close_frames(
            stack.drop_last(),
            if stack.last().1 {
                out.push(' ')
            } else {
                out
            },
            d,
        )
    } else {
        (stack, out)
    }
}

pub open spec fn text_step(st: TextWalk, n: PreNode) -> TextWalk {
    let (stack, out) = close_frames(st.stack, st.out, n.depth);
    let skipping = match st.skip {
        Some(sd) => n.depth > sd,
        None => false,
    };
    if skipping {
        TextWalk { stack, skip: st.skip, out }
    } else {
        match n.node {
            HtmlNode::Text(t) => TextWalk { stack, skip: None, out: out + t@ },
            HtmlNode::Element { name, .. } => if eq_ignore_case(name@, "br"@) {
                TextWalk { stack, skip: Some(n.depth), out: out.push(' ') }
            } else {
                TextWalk { stack: stack.push((n.depth, is_block_spec(name@))), skip: None, out }
            },
            HtmlNode::Other => TextWalk { stack, skip: Some(n.depth), out },
        }
    }
}

pub open spec fn text_walk(nodes: Seq<PreNode>) -> TextWalk
    decreases nodes.len(),
{
    if nodes.len() == 0 {
        TextWalk { stack: Seq::empty(), skip: None, out: Seq::empty() }
    } else {
        text_step(text_walk(nodes.drop_last()), nodes.last())
    }
}

/// Text of the nodes in document order: text nodes verbatim, a space for each
/// `<br>` (whose content is skipped) and after each block element; comments and
/// the like contribute nothing.
pub open spec fn plain_text_of_nodes(nodes: Seq<PreNode>) -> Seq<char> {
    let w = text_walk(nodes);
    close_frames(w.stack, w.out, 0).1
}

/// Plain text of an HTML fragment before whitespace collapsing: empty for an
/// empty fragment, else the text of its parsed nodes after decoding references.
pub open spec fn extract_plain_text_spec(raw: Seq<char>) -> Seq<char> {
    if raw.len() == 0 {
        Seq::empty()
    } else {
        collapse_spec(plain_text_of_nodes(html_fragment_nodes(decode_spec(raw))))
    }
}

// ---------------- length cap ----------------

pub open spec fn utf16_units(c: char) -> nat {
    if (c as u32) >= 0x10000 {
        2
    } else {
        1
    }
}

/// Length in UTF-16 code units (JavaScript's `String.length`).
pub open spec fn utf16_len(s: Seq<char>) -> nat
    decreases s.len(),
{
    if s.len() == 0 {
        0
    } else {
        utf16_len(s.drop_last()) + utf16_units(s.last())
    }
}

/// Greedy prefix: characters taken while the total stays within `budget` units.
pub open spec fn fit_from(s: Seq<char>, budget: nat, k: int, units: nat) -> int
    decreases s.len() - k,
{
    if 0 <= k < s.len() && units + utf16_units(s[k]) <= budget {
        fit_from(s, budget, k + 1, units + utf16_units(s[k]))
    } else {
        k
    }
}

/// Index of the last whitespace character of `s`, if any.
pub open spec fn last_ws(s: Seq<char>) -> Option<int>
    decreases s.len(),
{
    if s.len() == 0 {
        None
    } else if is_ws(s.last()) {
        Some(s.len() - 1)
    } else {
        last_ws(s.drop_last())
    }
}

/// `s` capped to `max` UTF-16 units: unchanged when it fits; otherwise the
/// longest prefix of at most `max - 1` units, cut back to its last word break
/// when that drops at most 40 characters, followed by an ellipsis.
pub open spec fn cap_length_spec(s: Seq<char>, max: nat) -> Seq<char> {
    if utf16_len(s) <= max {
        s
    } else {
        let budget = if max >= 1 {
            (max - 1) as nat
        } else {
            0
        };
        let acc = s.take(fit_from(s, budget, 0, 0));
        let base = match last_ws(acc) {
            Some(w) => if acc.len() - w <= 40 {
                trim_end_seq(acc.take(w))
            } else {
                acc
            },
            None => acc,
        };
        base.push('\u{2026}')
    }
}

pub open spec fn normalize_spec(raw: Seq<char>) -> Seq<char> {
    cap_length_spec(trim_seq(extract_plain_text_spec(raw)), EXCERPT_MAX_CHARS as nat)
}

pub open spec fn normalize_title_spec(raw: Seq<char>) -> Seq<char> {
    trim_seq(extract_plain_text_spec(raw))
}

proof fn lemma_utf16_take(s: Seq<char>, k: int)
    requires
        0 <= k < s.len(),
    ensures
        utf16_len(s.take(k + 1)) == utf16_len(s.take(k)) + utf16_units(s[k]),
{
    assert(s.take(k + 1).drop_last() =~= s.take(k));
}

pub struct ExcerptNormalizer;

impl ExcerptNormalizer {
    /// Clean, capped excerpt text of an HTML excerpt.
    pub fn normalize(raw: &str) -> (r: String)
        ensures
            r@ == normalize_spec(raw@),
    {
        let s = Self::extract_plain_text(raw);
        let t = Self::trim(s.as_str());
        Self::cap_length(t.as_str(), EXCERPT_MAX_CHARS)
    }

    /// Clean text of an HTML title.
    pub fn normalize_title(raw: &str) -> (r: String)
        ensures
            r@ == normalize_title_spec(raw@),
    {
        let s = Self::extract_plain_text(raw);
        Self::trim(s.as_str())
    }

    /// Clean text of an HTML comment body.
    pub fn normalize_comment(raw: &str) -> (r: String)
        ensures
            r@ == normalize_title_spec(raw@),
    {
        let s = Self::extract_plain_text(raw);
        Self::trim(s.as_str())
    }

    pub fn trim(s: &str) -> (r: String)
        ensures
            r@ == trim_seq(s@),
    {
        let v = chars_of(s);
        let t = trim_chars(&v);
        string_of(&t)
    }

    /// Whether `tag` names a block element (ignoring ASCII case).
    pub fn is_block(tag: &str) -> (r: bool)
        ensures
            r == is_block_spec(tag@),
    {
        let tags: Vec<&'static str> = vec![
            "br", "p", "div", "li", "section", "article", "blockquote", "header", "footer",
            "tr", "td", "th", "ul", "ol", "h1", "h2", "h3", "h4", "h5", "h6",
        ];
        assert(tags@ == block_tag_list());
        let t = chars_of(tag);
        for i in 0..tags.len()
            invariant
                tags@ == block_tag_list(),
                t@ == tag@,
                forall|k: int| 0 <= k < i ==> !eq_ignore_case(block_tag_list()[k]@, tag@),
        {
            let cand = chars_of(tags[i]);
            if eq_ignore_ascii_case(&cand, &t) {
                return true;
            }
        }
        false
    }

    /// Decodes every numeric character reference (`&#8217;`, `&#x2019;`, any
    /// number of digits) that names a Unicode scalar value; named references,
    /// references naming no character and unterminated ones are left as they are.
    pub fn decode_numeric_entities(s: &str) -> (r: String)
        ensures
            r@ == decode_spec(s@),
    {
        let v = chars_of(s);
        let mut out: Vec<char> = Vec::new();
        let mut i: usize = 0;
        while i < v.len()
            invariant
                v@ == s@,
                i <= v.len(),
                out@ + decode_from(v@, i as int) == decode_from(v@, 0),
            decreases v.len() - i,
        {
            match reference_at_exec(&v, i) {
                Some((c, j)) => {
                    out.push(c);
                    assert(out@ + decode_from(v@, j as int) =~= old_out_plus(
                        out@.drop_last(),
                        c,
                        decode_from(v@, j as int),
                    ));
                    i = j;
                },
                None => {
                    out.push(v[i]);
                    assert(out@ + decode_from(v@, i + 1) =~= old_out_plus(
                        out@.drop_last(),
                        v@[i as int],
                        decode_from(v@, i + 1),
                    ));
                    i += 1;
                },
            }
        }
        string_of(&out)
    }

    /// Drops carriage returns, turns whitespace runs into single spaces, trims.
    pub fn collapse_whitespace(s: &str) -> (r: String)
        ensures
            r@ == collapse_spec(s@),
    {
        let v = chars_of(s);
        let mut out: Vec<char> = Vec::new();
        let mut prev_space = false;
        for i in 0..v.len()
            invariant
                v@ == s@,
                (out@, prev_space) == collapse_state(v@.take(i as int)),
        {
            assert(v@.take(i + 1).drop_last() == v@.take(i as int));
            let ch = v[i];
            if ch == '\r' {
            } else if is_whitespace(ch) {
                if !prev_space && out.len() > 0 {
                    out.push(' ');
                    prev_space = true;
                }
            } else {
                out.push(ch);
                prev_space = false;
            }
        }
        assert(v@.take(v.len() as int) == v@);
        let t = trim_chars(&out);
        string_of(&t)
    }

    /// Text of a parsed node sequence (see `plain_text_of_nodes`).
    pub fn plain_text_from_nodes(nodes: &Vec<PreNode>) -> (r: Vec<char>)
        ensures
            r@ == plain_text_of_nodes(nodes@),
    {
        let mut stack: Vec<(usize, bool)> = Vec::new();
        let mut skip: Option<usize> = None;
        let mut out: Vec<char> = Vec::new();
        for i in 0..nodes.len()
            invariant
                text_walk(nodes@.take(i as int)) == (TextWalk { stack: stack@, skip, out: out@ }),
        {
            assert(nodes@.take(i + 1).drop_last() == nodes@.take(i as int));
            let n = &nodes[i];
            Self::close_open_elements(&mut stack, &mut out, n.depth);
            let skipping = match skip {
                Some(sd) => n.depth > sd,
                None => false,
            };
            if !skipping {
                match &n.node {
                    HtmlNode::Text(t) => {
                        extend_str(&mut out, t.as_str());
                        skip = None;
                    },
                    HtmlNode::Element { name, .. } => {
                        let nm = chars_of(name.as_str());
                        let br = chars_of("br");
                        if eq_ignore_ascii_case(&nm, &br) {
                            out.push(' ');
                            skip = Some(n.depth);
                        } else {
                            let blk = Self::is_block(name.as_str());
                            stack.push((n.depth, blk));
                            skip = None;
                        }
                    },
                    HtmlNode::Other => {
                        skip = Some(n.depth);
                    },
                }
            }
        }
        assert(nodes@.take(nodes.len() as int) == nodes@);
        Self::close_open_elements(&mut stack, &mut out, 0);
        out
    }

    fn close_open_elements(stack: &mut Vec<(usize, bool)>, out: &mut Vec<char>, d: usize)
        ensures
            (final(stack)@, final(out)@) == close_frames(old(stack)@, old(out)@, d),
    {
        while stack.len() > 0 && stack[stack.len() - 1].0 >= d
            invariant
                close_frames(stack@, out@, d) == close_frames(old(stack)@, old(out)@, d),
            decreases stack.len(),
        {
            let top = stack.pop().unwrap();
            if top.1 {
                out.push(' ');
            }
        }
    }

    /// Plain text of an HTML fragment: references decoded, tags stripped,
    /// whitespace collapsed.
    pub fn extract_plain_text(html_in: &str) -> (r: String)
        ensures
            r@ == extract_plain_text_spec(html_in@),
    {
        if html_in.is_empty() {
            return String::new();
        }
        let decoded = Self::decode_numeric_entities(html_in);
        let nodes = parse_fragment_nodes(decoded.as_str());
        let text = Self::plain_text_from_nodes(&nodes);
        let s = string_of(&text);
        Self::collapse_whitespace(s.as_str())
    }

    /// Caps `s` to `max` UTF-16 code units (see `cap_length_spec`).
    pub fn cap_length(s: &str, max: usize) -> (r: String)
        ensures
            r@ == cap_length_spec(s@, max as nat),
    {
        let v = chars_of(s);
        // Does the whole text fit?
        let mut units: usize = 0;
        let mut k: usize = 0;
        let mut fits = true;
        while fits && k < v.len()
            invariant
                v@ == s@,
                k <= v.len(),
                units == utf16_len(v@.take(k as int)),
                units <= max,
                !fits ==> k < v.len() && utf16_len(v@.take(k as int)) + utf16_units(v@[k as int]) > max,
            decreases (v.len() - k) as int + (if fits { 1int } else { 0int }),
        {
            proof {
                lemma_utf16_take(v@, k as int);
            }
            let n: usize = if (v[k] as u32) >= 0x10000 {
                2
            } else {
                1
            };
            if n > max - units {
                fits = false;
            } else {
                units = units + n;
                k += 1;
            }
        }
        if fits {
            assert(v@.take(v.len() as int) == v@);
            return string_of(&v);
        }
        proof {
            lemma_utf16_prefix_exceeds(v@, k as int, max as nat);
        }
        let budget: usize = if max >= 1 {
            max - 1
        } else {
            0
        };
        let mut acc_units: usize = 0;
        let mut j: usize = 0;
        let mut more = true;
        while more && j < v.len()
            invariant
                v@ == s@,
                j <= v.len(),
                acc_units <= budget,
                more ==> fit_from(v@, budget as nat, 0, 0) == fit_from(v@, budget as nat, j as int, acc_units as nat),
                !more ==> fit_from(v@, budget as nat, 0, 0) == j,
            decreases (v.len() - j) as int + (if more { 1int } else { 0int }),
        {
            let n: usize = if (v[j] as u32) >= 0x10000 {
                2
            } else {
                1
            };
            if n > budget - acc_units {
                more = false;
            } else {
                acc_units = acc_units + n;
                j += 1;
            }
        }
        let acc = slice_chars(&v, 0, j);
        assert(acc@ == v@.take(j as int));
        // Last whitespace position in the kept prefix.
        let mut w: usize = acc.len();
        let mut found = false;
        assert(acc@.take(acc.len() as int) == acc@);
        while !found && w > 0
            invariant
                w <= acc.len(),
                !found ==> last_ws(acc@) == last_ws(acc@.take(w as int)),
                found ==> w > 0 && last_ws(acc@) == Some(w - 1),
            decreases w as int + (if found { 0int } else { 1int }),
        {
            assert(acc@.take(w as int).drop_last() == acc@.take(w - 1));
            if is_whitespace(acc[w - 1]) {
                found = true;
            } else {
                w -= 1;
            }
        }
        let mut base = if found && acc.len() - (w - 1) <= 40 {
            let head = slice_chars(&acc, 0, w - 1);
            assert(head@ == acc@.take(w - 1));
            trim_end_chars(&head)
        } else {
            proof {
                if !found {
                    assert(acc@.take(0) =~= Seq::<char>::empty());
                }
            }
            acc
        };
        base.push('\u{2026}');
        string_of(&base)
    }
}

pub open spec fn old_out_plus(prefix: Seq<char>, c: char, rest: Seq<char>) -> Seq<char> {
    prefix + (seq![c] + rest)
}

proof fn lemma_utf16_prefix_exceeds(s: Seq<char>, k: int, max: nat)
    requires
        0 <= k < s.len(),
        utf16_len(s.take(k)) + utf16_units(s[k]) > max,
    ensures
        utf16_len(s) > max,
{
    lemma_utf16_take(s, k);
    lemma_utf16_prefix_mono(s, k + 1);
}

proof fn lemma_utf16_prefix_mono(s: Seq<char>, k: int)
    requires
        0 <= k <= s.len(),
    ensures
        utf16_len(s.take(k)) <= utf16_len(s),
    decreases s.len() - k,
{
    if k < s.len() {
        lemma_utf16_take(s, k);
        lemma_utf16_prefix_mono(s, k + 1);
    } else {
        assert(s.take(k) == s);
    }
}

} // verus!
