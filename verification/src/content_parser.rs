//! Splits WordPress post HTML into an ordered list of content blocks.
//!
//! Each top-level child of the fragment becomes at most one block: an image
//! (a bare `<img>`, or a figure / `wp-block-image` / `wp-image` wrapper around
//! one), a call-to-action button (an element carrying all four block-editor
//! button classes, possibly inside a `wp-block-button` wrapper), or verbatim
//! HTML. `<html>`/`<body>` wrappers are looked through. Nested elements are
//! never emitted twice.
use vstd::prelude::*;

use crate::html::{
    attr_or_empty, element_named, html_fragment_nodes, is_element_named, node_attr,
    parse_fragment_nodes, subtree_end, subtree_end_exec, HtmlNode, PreNode,
};
use crate::models::{
    blank_view, block_view, block_views, string_views, BlockType, BlockView, ContentBlock,
};
use crate::text::{
    chars_of, extend_str, is_ascii_whitespace, is_ascii_ws, is_whitespace, is_ws, matches_at,
    occurs_at, string_of, trim_chars, trim_seq, trim_str,
};

verus! {

// ---------------- class tokens ----------------

/// `class_attr.split_ascii_whitespace().any(|t| t == token)`.
pub open spec fn class_has_token(s: Seq<char>, token: Seq<char>) -> bool {
    &&& token.len() > 0
    &&& forall|k: int| 0 <= k < token.len() ==> !is_ascii_ws(token[k])
    &&& exists|i: int|
        #![trigger occurs_at(s, token, i)]
        occurs_at(s, token, i) && (i == 0 || is_ascii_ws(s[i - 1])) && (i + token.len() == s.len()
            || is_ascii_ws(s[i + token.len()]))
}

pub fn class_contains(class_attr: &Vec<char>, token: &str) -> (r: bool)
    ensures
        r == class_has_token(class_attr@, token@),
{
    let t = chars_of(token);
    if t.len() == 0 {
        return false;
    }
    for k in 0..t.len()
        invariant
            t@ == token@,
            forall|m: int| 0 <= m < k ==> !is_ascii_ws(t@[m]),
    {
        if is_ascii_whitespace(t[k]) {
            return false;
        }
    }
    if t.len() > class_attr.len() {
        return false;
    }
    let last = class_attr.len() - t.len();
    let mut i: usize = 0;
    while i <= last
        invariant
            t@ == token@,
            t.len() > 0,
            last == class_attr.len() - t.len(),
            i <= last + 1,
            forall|m: int| 0 <= m < t.len() ==> !is_ascii_ws(t@[m]),
            forall|j: int|
                #![trigger occurs_at(class_attr@, token@, j)]
                0 <= j < i ==> !(occurs_at(class_attr@, token@, j) && (j == 0 || is_ascii_ws(
                    class_attr@[j - 1],
                )) && (j + token@.len() == class_attr@.len() || is_ascii_ws(
                    class_attr@[j + token@.len()],
                ))),
        decreases last + 1 - i,
    {
        let at = matches_at(class_attr, &t, i);
        let before = i == 0 || is_ascii_whitespace(class_attr[i - 1]);
        let after = i + t.len() == class_attr.len() || is_ascii_whitespace(class_attr[i + t.len()]);
        if at && before && after {
            return true;
        }
        if i == last {
            proof {
                assert forall|j: int|
                    #![trigger occurs_at(class_attr@, token@, j)]
                    occurs_at(class_attr@, token@, j) implies !((j == 0 || is_ascii_ws(
                        class_attr@[j - 1],
                    )) && (j + token@.len() == class_attr@.len() || is_ascii_ws(
                        class_attr@[j + token@.len()],
                    ))) by {
                    assert(j <= last);
                }
            }
            return false;
        }
        i += 1;
    }
    false
}

// ---------------- srcset ----------------

/// Splitting state at `,`: finished pieces and the piece being read.
pub open spec fn split_state(s: Seq<char>) -> (Seq<Seq<char>>, Seq<char>)
    decreases s.len(),
{
    if s.len() == 0 {
        (Seq::empty(), Seq::empty())
    } else {
        let (done, cur) = split_state(s.drop_last());
        if s.last() == ',' {
            (done.push(cur), Seq::empty())
        } else {
            (done, cur.push(s.last()))
        }
    }
}

/// The pieces of `s` between commas (`str::split(',')`).
pub open spec fn comma_pieces(s: Seq<char>) -> Seq<Seq<char>> {
    split_state(s).0.push(split_state(s).1)
}

/// Trimmed pieces, empty ones dropped.
pub open spec fn trimmed_nonempty(pieces: Seq<Seq<char>>) -> Seq<Seq<char>>
    decreases pieces.len(),
{
    if pieces.len() == 0 {
        Seq::empty()
    } else {
        let rest = trimmed_nonempty(pieces.drop_last());
        if trim_seq(pieces.last()).len() > 0 {
            rest.push(trim_seq(pieces.last()))
        } else {
            rest
        }
    }
}

/// The candidates of a `srcset` attribute: comma-separated, trimmed, non-empty.
pub open spec fn srcset_items(s: Seq<char>) -> Seq<Seq<char>> {
    trimmed_nonempty(comma_pieces(s))
}

pub fn split_srcset(s: &Vec<char>) -> (r: Vec<String>)
    ensures
        string_views(r@) == srcset_items(s@),
{
    let mut done: Vec<String> = Vec::new();
    let mut cur: Vec<char> = Vec::new();
    for i in 0..s.len()
        invariant
            string_views(done@) == trimmed_nonempty(split_state(s@.take(i as int)).0),
            cur@ == split_state(s@.take(i as int)).1,
    {
        assert(s@.take(i + 1).drop_last() == s@.take(i as int));
        if s[i] == ',' {
            let t = trim_chars(&cur);
            let ghost pieces = split_state(s@.take(i as int)).0.push(cur@);
            assert(pieces.drop_last() == split_state(s@.take(i as int)).0);
            if t.len() > 0 {
                done.push(string_of(&t));
                assert(string_views(done@) =~= trimmed_nonempty(pieces));
            }
            cur = Vec::new();
        } else {
            cur.push(s[i]);
        }
    }
    assert(s@.take(s.len() as int) == s@);
    let t = trim_chars(&cur);
    let ghost pieces = comma_pieces(s@);
    assert(pieces.drop_last() == split_state(s@).0);
    if t.len() > 0 {
        done.push(string_of(&t));
        assert(string_views(done@) =~= trimmed_nonempty(pieces));
    }
    done
}

// ---------------- words ----------------

/// State of `split_whitespace().join(" ")`: the text so far and whether a
/// separator is pending.
pub open spec fn words_state(s: Seq<char>) -> (Seq<char>, bool)
    decreases s.len(),
{
    if s.len() == 0 {
        (Seq::empty(), false)
    } else {
        let (out, pending) = words_state(s.drop_last());
        let c = s.last();
        if is_ws(c) {
            (out, out.len() > 0)
        } else if pending {
            (out.push(' ').push(c), false)
        } else {
            (out.push(c), false)
        }
    }
}

/// The whitespace-separated words of `s` joined by single spaces.
pub open spec fn join_words(s: Seq<char>) -> Seq<char> {
    words_state(s).0
}

pub fn collapse_words(s: &Vec<char>) -> (r: Vec<char>)
    ensures
        r@ == join_words(s@),
{
    let mut out: Vec<char> = Vec::new();
    let mut pending = false;
    for i in 0..s.len()
        invariant
            (out@, pending) == words_state(s@.take(i as int)),
    {
        assert(s@.take(i + 1).drop_last() == s@.take(i as int));
        let c = s[i];
        if is_whitespace(c) {
            pending = out.len() > 0;
        } else {
            if pending {
                out.push(' ');
            }
            out.push(c);
            pending = false;
        }
    }
    assert(s@.take(s.len() as int) == s@);
    out
}

// ---------------- node predicates ----------------

pub open spec fn class_of(node: HtmlNode) -> Seq<char> {
    attr_or_empty(node, "class"@)
}

/// An element carrying all four classes the block editor puts on a CTA button.
pub open spec fn is_cta_node(node: HtmlNode) -> bool {
    &&& node is Element
    &&& class_has_token(class_of(node), "wp-block-button__link"@)
    &&& class_has_token(class_of(node), "has-white-color"@)
    &&& class_has_token(class_of(node), "has-text-color"@)
    &&& class_has_token(class_of(node), "has-background"@)
}

/// An element whose local name is exactly `img` (what the `img` selector matches).
pub open spec fn is_img_node(node: HtmlNode) -> bool {
    match node {
        HtmlNode::Element { name, .. } => name@ == "img"@,
        _ => false,
    }
}

pub open spec fn is_image_wrapper(node: HtmlNode) -> bool {
    is_element_named(node, "figure"@) || class_has_token(class_of(node), "wp-block-image"@)
        || class_has_token(class_of(node), "wp-image"@)
}

/// First position in `[k, end)` whose node is an `img` element.
pub open spec fn first_img(nodes: Seq<PreNode>, k: int, end: int) -> Option<int>
    decreases end - k,
{
    if k >= end || k >= nodes.len() || k < 0 {
        None
    } else if is_img_node(nodes[k].node) {
        Some(k)
    } else {
        first_img(nodes, k + 1, end)
    }
}

/// First position in `[k, end)` whose node is a CTA element.
pub open spec fn first_cta(nodes: Seq<PreNode>, k: int, end: int) -> Option<int>
    decreases end - k,
{
    if k >= end || k >= nodes.len() || k < 0 {
        None
    } else if is_cta_node(nodes[k].node) {
        Some(k)
    } else {
        first_cta(nodes, k + 1, end)
    }
}

/// Text nodes of `[k, end)` concatenated.
pub open spec fn text_in(nodes: Seq<PreNode>, k: int, end: int) -> Seq<char>
    decreases end - k,
{
    if k >= end || k >= nodes.len() || k < 0 {
        Seq::empty()
    } else {
        let here = match nodes[k].node {
            HtmlNode::Text(t) => t@,
            _ => Seq::empty(),
        };
        here + text_in(nodes, k + 1, end)
    }
}

pub open spec fn outer_html_of(node: HtmlNode) -> Seq<char> {
    match node {
        HtmlNode::Element { outer_html, .. } => outer_html@,
        _ => Seq::empty(),
    }
}

/// The block counter after one more block (wrapping like release-mode `+= 1`).
pub open spec fn next_index(i: i32) -> i32 {
    if i == i32::MAX {
        i32::MIN
    } else {
        (i + 1) as i32
    }
}

/// Image block of an `img` element: its `src` (also kept as raw HTML), `alt`
/// and `srcset` candidates.
pub open spec fn image_block_spec(node: HtmlNode, idx: i32) -> BlockView {
    BlockView {
        raw_html: attr_or_empty(node, "src"@),
        src: attr_or_empty(node, "src"@),
        srcset: srcset_items(attr_or_empty(node, "srcset"@)),
        alt: attr_or_empty(node, "alt"@),
        ..blank_view(BlockType::Image, idx)
    }
}

/// CTA block of the element at `k`: its `href` and its text with whitespace
/// runs collapsed.
pub open spec fn cta_block_spec(nodes: Seq<PreNode>, k: int, idx: i32) -> BlockView {
    BlockView {
        href: attr_or_empty(nodes[k].node, "href"@),
        text: join_words(text_in(nodes, k, subtree_end(nodes, k))),
        ..blank_view(BlockType::Cta, idx)
    }
}

pub open spec fn html_block_spec(raw: Seq<char>, idx: i32) -> BlockView {
    BlockView { raw_html: raw, ..blank_view(BlockType::Html, idx) }
}

/// Blocks of the element at `i`, numbered from `idx`, and the next number.
pub open spec fn handle_spec(nodes: Seq<PreNode>, i: int, idx: i32) -> (Seq<BlockView>, i32)
    decreases nodes.len() - i, 1int,
{
    if !(0 <= i < nodes.len()) {
        (Seq::empty(), idx)
    } else {
        let node = nodes[i].node;
        let end = subtree_end(nodes, i);
        if is_element_named(node, "html"@) || is_element_named(node, "body"@) {
            kids_spec(nodes, nodes[i].depth as int + 1, i + 1, end, idx, false)
        } else if is_element_named(node, "img"@) {
            (seq![image_block_spec(node, idx)], next_index(idx))
        } else if is_image_wrapper(node) && first_img(nodes, i + 1, end) is Some {
            (seq![image_block_spec(nodes[first_img(nodes, i + 1, end)->0].node, idx)], next_index(idx))
        } else if class_has_token(class_of(node), "wp-block-button"@) && first_cta(nodes, i, end) is Some {
            (seq![cta_block_spec(nodes, first_cta(nodes, i, end)->0, idx)], next_index(idx))
        } else if is_cta_node(node) {
            (seq![cta_block_spec(nodes, i, idx)], next_index(idx))
        } else if trim_seq(outer_html_of(node)).len() > 0 {
            (seq![html_block_spec(trim_seq(outer_html_of(node)), idx)], next_index(idx))
        } else {
            (Seq::empty(), idx)
        }
    }
}

/// Blocks of the children (nodes of depth `depth`) among positions `[c, end)`:
/// elements through `handle_spec`, and, when `with_text` holds, non-blank text
/// nodes as trimmed HTML blocks.
pub open spec fn kids_spec(
    nodes: Seq<PreNode>,
    depth: int,
    c: int,
    end: int,
    idx: i32,
    with_text: bool,
) -> (Seq<BlockView>, i32)
    decreases nodes.len() - c, 2int,
{
    if c < 0 || c >= end || c >= nodes.len() {
        (Seq::empty(), idx)
    } else if nodes[c].depth != depth {
        kids_spec(nodes, depth, c + 1, end, idx, with_text)
    } else {
        match nodes[c].node {
            HtmlNode::Text(t) => if with_text && trim_seq(t@).len() > 0 {
                let rest = kids_spec(nodes, depth, c + 1, end, next_index(idx), with_text);
                (seq![html_block_spec(trim_seq(t@), idx)] + rest.0, rest.1)
            } else {
                kids_spec(nodes, depth, c + 1, end, idx, with_text)
            },
            HtmlNode::Element { .. } => {
                let here = handle_spec(nodes, c, idx);
                let rest = kids_spec(nodes, depth, c + 1, end, here.1, with_text);
                (here.0 + rest.0, rest.1)
            },
            HtmlNode::Other => kids_spec(nodes, depth, c + 1, end, idx, with_text),
        }
    }
}

/// Blocks of a parsed fragment: the children of its root, numbered from 0.
pub open spec fn blocks_of_nodes(nodes: Seq<PreNode>) -> Seq<BlockView> {
    if nodes.len() == 0 {
        Seq::empty()
    } else {
        kids_spec(nodes, nodes[0].depth as int + 1, 1, nodes.len() as int, 0, true).0
    }
}

pub open spec fn parse_spec(html: Seq<char>) -> Seq<BlockView> {
    if html.len() == 0 {
        Seq::empty()
    } else {
        blocks_of_nodes(html_fragment_nodes(html))
    }
}

pub struct ContentParser;

impl ContentParser {
    /// The content blocks of a post body, in document order, numbered from 0.
    pub fn parse(html_content: &str) -> (r: Vec<ContentBlock>)
        ensures
            block_views(r@) == parse_spec(html_content@),
    {
        if html_content.is_empty() {
            let r: Vec<ContentBlock> = Vec::new();
            assert(block_views(r@) =~= Seq::<BlockView>::empty());
            return r;
        }
        let nodes = parse_fragment_nodes(html_content);
        Self::blocks_from_nodes(&nodes)
    }

    /// The content blocks of a parsed fragment (see `blocks_of_nodes`).
    pub fn blocks_from_nodes(nodes: &Vec<PreNode>) -> (r: Vec<ContentBlock>)
        ensures
            block_views(r@) == blocks_of_nodes(nodes@),
    {
        let mut out: Vec<ContentBlock> = Vec::new();
        if nodes.len() == 0 {
            assert(block_views(out@) =~= Seq::<BlockView>::empty());
            return out;
        }
        if nodes[0].depth == usize::MAX {
            // No node can be a child of the root.
            proof {
                lemma_kids_none(nodes@, nodes@[0].depth as int + 1, 1, nodes.len() as int, 0, true);
            }
            assert(block_views(out@) =~= Seq::<BlockView>::empty());
            return out;
        }
        let _ = Self::kids(nodes, nodes[0].depth + 1, 1, nodes.len(), 0, true, &mut out);
        assert(block_views(Seq::<ContentBlock>::empty()) =~= Seq::<BlockView>::empty());
        assert(block_views(out@) =~= Seq::<BlockView>::empty() + blocks_of_nodes(nodes@));
        out
    }

    fn kids(
        nodes: &Vec<PreNode>,
        depth: usize,
        c0: usize,
        end: usize,
        idx0: i32,
        with_text: bool,
        out: &mut Vec<ContentBlock>,
    ) -> (next: i32)
        requires
            end <= nodes.len(),
        ensures
            block_views(final(out)@) == block_views(old(out)@) + kids_spec(
                nodes@,
                depth as int,
                c0 as int,
                end as int,
                idx0,
                with_text,
            ).0,
            next == kids_spec(nodes@, depth as int, c0 as int, end as int, idx0, with_text).1,
        decreases nodes.len() - c0, 2int,
    {
        let mut c = c0;
        let mut idx = idx0;
        let ghost total = kids_spec(nodes@, depth as int, c0 as int, end as int, idx0, with_text);
        while c < end
            invariant
                end <= nodes.len(),
                c0 <= c,
                block_views(out@) + kids_spec(nodes@, depth as int, c as int, end as int, idx, with_text).0
                    == block_views(old(out)@) + total.0,
                kids_spec(nodes@, depth as int, c as int, end as int, idx, with_text).1 == total.1,
            decreases end - c,
        {
            if nodes[c].depth == depth {
                match &nodes[c].node {
                    HtmlNode::Text(t) => {
                        let tt = trim_str(t.as_str());
                        if with_text && tt.len() > 0 {
                            let ghost before = block_views(out@);
                            let mut b = ContentBlock::blank(BlockType::Html, idx);
                            b.raw_html = string_of(&tt);
                            out.push(b);
                            assert(block_views(out@) =~= before.push(block_view(b)));
                            assert(block_view(b) == html_block_spec(trim_seq(t@), idx));
                            idx = if idx == i32::MAX {
                                i32::MIN
                            } else {
                                idx + 1
                            };
                        }
                    },
                    HtmlNode::Element { .. } => {
                        let ghost before = block_views(out@);
                        idx = Self::handle_element(nodes, c, idx, out);
                    },
                    HtmlNode::Other => {},
                }
            }
            c += 1;
        }
        idx
    }

    fn handle_element(nodes: &Vec<PreNode>, i: usize, idx: i32, out: &mut Vec<ContentBlock>) -> (next: i32)
        requires
            i < nodes.len(),
        ensures
            block_views(final(out)@) == block_views(old(out)@) + handle_spec(nodes@, i as int, idx).0,
            next == handle_spec(nodes@, i as int, idx).1,
        decreases nodes.len() - i, 1int,
    {
        let node = &nodes[i].node;
        let end = subtree_end_exec(nodes, i);
        let next_idx = if idx == i32::MAX {
            i32::MIN
        } else {
            idx + 1
        };
        if element_named(node, "html") || element_named(node, "body") {
            if nodes[i].depth == usize::MAX {
                proof {
                    lemma_kids_none(nodes@, nodes@[i as int].depth as int + 1, i + 1, end as int, idx, false);
                }
                assert(block_views(out@) =~= block_views(old(out)@) + Seq::<BlockView>::empty());
                return idx;
            }
            return Self::kids(nodes, nodes[i].depth + 1, i + 1, end, idx, false, out);
        }
        if element_named(node, "img") {
            let b = Self::image_block_from_img(node, idx);
            let ghost before = block_views(out@);
            out.push(b);
            assert(block_views(out@) =~= before + seq![block_view(b)]);
            return next_idx;
        }
        let class_attr = node_attr(node, "class");
        let wrapper = element_named(node, "figure") || class_contains(&class_attr, "wp-block-image")
            || class_contains(&class_attr, "wp-image");
        if wrapper {
            match Self::find_img(nodes, i + 1, end) {
                Some(k) => {
                    let b = Self::image_block_from_img(&nodes[k].node, idx);
                    let ghost before = block_views(out@);
                    out.push(b);
                    assert(block_views(out@) =~= before + seq![block_view(b)]);
                    return next_idx;
                },
                None => {},
            }
        }
        if class_contains(&class_attr, "wp-block-button") {
            match Self::find_cta(nodes, i, end) {
                Some(k) => {
                    let b = Self::cta_block_from(nodes, k, idx);
                    let ghost before = block_views(out@);
                    out.push(b);
                    assert(block_views(out@) =~= before + seq![block_view(b)]);
                    return next_idx;
                },
                None => {},
            }
        }
        if Self::is_cta_element(node) {
            let b = Self::cta_block_from(nodes, i, idx);
            let ghost before = block_views(out@);
            out.push(b);
            assert(block_views(out@) =~= before + seq![block_view(b)]);
            return next_idx;
        }
        let raw = match node {
            HtmlNode::Element { outer_html, .. } => trim_str(outer_html.as_str()),
            _ => {
                let v: Vec<char> = Vec::new();
                assert(trim_seq(Seq::<char>::empty()) =~= Seq::<char>::empty()) by {
                    reveal_with_fuel(crate::text::drop_while_start, 1);
                    reveal_with_fuel(crate::text::drop_while_end, 1);
                }
                v
            },
        };
        if raw.len() > 0 {
            let mut b = ContentBlock::blank(BlockType::Html, idx);
            b.raw_html = string_of(&raw);
            let ghost before = block_views(out@);
            out.push(b);
            assert(block_views(out@) =~= before + seq![block_view(b)]);
            return next_idx;
        }
        assert(block_views(out@) =~= block_views(old(out)@) + Seq::<BlockView>::empty());
        idx
    }

    fn find_img(nodes: &Vec<PreNode>, k0: usize, end: usize) -> (r: Option<usize>)
        requires
            end <= nodes.len(),
        ensures
            match r {
                Some(k) => first_img(nodes@, k0 as int, end as int) == Some(k as int) && k < nodes.len(),
                None => first_img(nodes@, k0 as int, end as int) is None,
            },
    {
        let mut k = k0;
        while k < end
            invariant
                end <= nodes.len(),
                k0 <= k,
                first_img(nodes@, k0 as int, end as int) == first_img(nodes@, k as int, end as int),
            decreases end - k,
        {
            let is_img = match &nodes[k].node {
                HtmlNode::Element { name, .. } => {
                    let n = chars_of(name.as_str());
                    let img = chars_of("img");
                    crate::text::chars_eq(&n, &img)
                },
                _ => false,
            };
            if is_img {
                return Some(k);
            }
            k += 1;
        }
        None
    }

    fn find_cta(nodes: &Vec<PreNode>, k0: usize, end: usize) -> (r: Option<usize>)
        requires
            end <= nodes.len(),
        ensures
            match r {
                Some(k) => first_cta(nodes@, k0 as int, end as int) == Some(k as int) && k < nodes.len(),
                None => first_cta(nodes@, k0 as int, end as int) is None,
            },
    {
        let mut k = k0;
        while k < end
            invariant
                end <= nodes.len(),
                k0 <= k,
                first_cta(nodes@, k0 as int, end as int) == first_cta(nodes@, k as int, end as int),
            decreases end - k,
        {
            if Self::is_cta_element(&nodes[k].node) {
                return Some(k);
            }
            k += 1;
        }
        None
    }

    /// Whether the node is an element with all four CTA button classes.
    pub fn is_cta_element(node: &HtmlNode) -> (r: bool)
        ensures
            r == is_cta_node(*node),
    {
        match node {
            HtmlNode::Element { .. } => {
                let class_attr = node_attr(node, "class");
                class_contains(&class_attr, "wp-block-button__link") && class_contains(
                    &class_attr,
                    "has-white-color",
                ) && class_contains(&class_attr, "has-text-color") && class_contains(
                    &class_attr,
                    "has-background",
                )
            },
            _ => false,
        }
    }

    fn image_block_from_img(img: &HtmlNode, index: i32) -> (b: ContentBlock)
        ensures
            block_view(b) == image_block_spec(*img, index),
    {
        let src = node_attr(img, "src");
        let alt = node_attr(img, "alt");
        let srcset_raw = node_attr(img, "srcset");
        let mut b = ContentBlock::blank(BlockType::Image, index);
        b.raw_html = string_of(&src);
        b.src = string_of(&src);
        b.srcset = split_srcset(&srcset_raw);
        b.alt = string_of(&alt);
        assert(string_views(Seq::<String>::empty()) =~= Seq::<Seq<char>>::empty());
        b
    }

    fn cta_block_from(nodes: &Vec<PreNode>, k: usize, index: i32) -> (b: ContentBlock)
        requires
            k < nodes.len(),
        ensures
            block_view(b) == cta_block_spec(nodes@, k as int, index),
    {
        let href = node_attr(&nodes[k].node, "href");
        let end = subtree_end_exec(nodes, k);
        let mut text: Vec<char> = Vec::new();
        let mut m = k;
        while m < end
            invariant
                k <= m <= end <= nodes.len(),
                text@ + text_in(nodes@, m as int, end as int) == text_in(nodes@, k as int, end as int),
            decreases end - m,
        {
            let ghost before = text@;
            match &nodes[m].node {
                HtmlNode::Text(t) => {
                    extend_str(&mut text, t.as_str());
                },
                _ => {},
            }
            assert(text@ + text_in(nodes@, m + 1, end as int) =~= before + text_in(nodes@, m as int, end as int));
            m += 1;
        }
        let words = collapse_words(&text);
        let mut b = ContentBlock::blank(BlockType::Cta, index);
        b.href = string_of(&href);
        b.text = string_of(&words);
        assert(string_views(Seq::<String>::empty()) =~= Seq::<Seq<char>>::empty());
        b
    }
}

proof fn lemma_kids_none(nodes: Seq<PreNode>, depth: int, c: int, end: int, idx: i32, with_text: bool)
    requires
        forall|k: int| 0 <= k < nodes.len() ==> nodes[k].depth != depth,
    ensures
        kids_spec(nodes, depth, c, end, idx, with_text) == (Seq::<BlockView>::empty(), idx),
    decreases nodes.len() - c,
{
    if !(c < 0 || c >= end || c >= nodes.len()) {
        lemma_kids_none(nodes, depth, c + 1, end, idx, with_text);
    }
}

} // verus!
