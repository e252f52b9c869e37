//! HTML fragments as the content pipeline reads them: the parsed node tree of a
//! fragment, flattened in document order with each node's depth, plus
//! attribute lookup and subtree navigation over that flat form.
use vstd::prelude::*;

use crate::text::{chars_eq, chars_of, eq_ignore_ascii_case, eq_ignore_case};

verus! {

/// One node of a parsed fragment.
#[derive(Debug, Clone)]
pub enum HtmlNode {
    /// A text node.
    Text(String),
    /// An element: its local name, its attributes as (namespace, local name,
    /// value), and its serialized outer HTML.
    Element { name: String, attrs: Vec<(String, String, String)>, outer_html: String },
    /// Comments, doctypes and processing instructions.
    Other,
}

/// A node in document (pre-)order with its depth; the nodes of a subtree follow
/// their root and are deeper than it.
#[derive(Debug, Clone)]
pub struct PreNode {
    pub depth: usize,
    pub node: HtmlNode,
}

/// What `scraper::Html::parse_fragment` yields for a fragment: the root element
/// and all its descendants in document order, each with its number of
/// ancestors.
pub uninterp spec fn html_fragment_nodes(fragment: Seq<char>) -> Seq<PreNode>;

/// Parses a fragment with `scraper::Html::parse_fragment` and converts every
/// node under the root element (`descendants()`) one for one; the depth is
/// `ancestors().count()`. The contract claims only that the result is a
/// function of the fragment's characters, named `html_fragment_nodes`.
#[verifier::external_body]
pub fn parse_fragment_nodes(fragment: &str) -> (r: Vec<PreNode>)
    ensures
        r@ == html_fragment_nodes(fragment@),
{
    let doc = scraper::Html::parse_fragment(fragment);
    let mut out = Vec::new();
    for n in doc.root_element().descendants() {
        let node = match n.value() {
            scraper::Node::Text(t) => HtmlNode::Text(t.to_string()),
            scraper::Node::Element(e) => HtmlNode::Element {
                name: e.name().to_string(),
                attrs: e.attrs.iter().map(|(q, v)| (q.ns.to_string(), q.local.to_string(), v.to_string())).collect(),
                outer_html: scraper::ElementRef::wrap(n).map(|r| r.html()).unwrap_or_default(),
            },
            _ => HtmlNode::Other,
        };
        out.push(PreNode { depth: n.ancestors().count(), node });
    }
    out
}

/// Value of the first attribute without a namespace whose local name is `name`
/// (`scraper::Element::attr`).
pub open spec fn attr_lookup(attrs: Seq<(String, String, String)>, name: Seq<char>) -> Option<
    Seq<char>,
>
    decreases attrs.len(),
{
    if attrs.len() == 0 {
        None
    } else if attrs[0].0@.len() == 0 && attrs[0].1@ == name {
        Some(attrs[0].2@)
    } else {
        attr_lookup(attrs.subrange(1, attrs.len() as int), name)
    }
}

/// Attribute `name` of an element node, or empty when absent (`attr(..).unwrap_or("")`).
pub open spec fn attr_or_empty(node: HtmlNode, name: Seq<char>) -> Seq<char> {
    match node {
        HtmlNode::Element { attrs, .. } => match attr_lookup(attrs@, name) {
            Some(v) => v,
            None => Seq::empty(),
        },
        _ => Seq::empty(),
    }
}

pub fn attr_value(attrs: &Vec<(String, String, String)>, name: &Vec<char>) -> (r: Option<Vec<char>>)
    ensures
        match r {
            Some(v) => attr_lookup(attrs@, name@) == Some(v@),
            None => attr_lookup(attrs@, name@) is None,
        },
{
    let mut i: usize = 0;
    assert(attrs@.subrange(0, attrs.len() as int) =~= attrs@);
    while i < attrs.len()
        invariant
            i <= attrs.len(),
            attr_lookup(attrs@, name@) == attr_lookup(attrs@.subrange(i as int, attrs.len() as int), name@),
        decreases attrs.len() - i,
    {
        let ghost rest = attrs@.subrange(i as int, attrs.len() as int);
        let ns = chars_of(attrs[i].0.as_str());
        let local = chars_of(attrs[i].1.as_str());
        if ns.len() == 0 && chars_eq(&local, name) {
            return Some(chars_of(attrs[i].2.as_str()));
        }
        assert(rest.subrange(1, rest.len() as int) =~= attrs@.subrange(i + 1, attrs.len() as int));
        i += 1;
    }
    None
}

/// Attribute `name` of a node, or empty when absent or when the node is no element.
pub fn node_attr(node: &HtmlNode, name: &str) -> (r: Vec<char>)
    ensures
        r@ == attr_or_empty(*node, name@),
{
    match node {
        HtmlNode::Element { attrs, .. } => {
            let n = chars_of(name);
            match attr_value(attrs, &n) {
                Some(v) => v,
                None => Vec::new(),
            }
        },
        _ => Vec::new(),
    }
}

/// Whether the node is an element whose local name equals `name` ignoring ASCII case.
pub open spec fn is_element_named(node: HtmlNode, name: Seq<char>) -> bool {
    match node {
        HtmlNode::Element { name: n, .. } => eq_ignore_case(n@, name),
        _ => false,
    }
}

pub fn element_named(node: &HtmlNode, name: &str) -> (r: bool)
    ensures
        r == is_element_named(*node, name@),
{
    match node {
        HtmlNode::Element { name: n, .. } => {
            let a = chars_of(n.as_str());
            let b = chars_of(name);
            eq_ignore_ascii_case(&a, &b)
        },
        _ => false,
    }
}

/// End (exclusive) of the subtree rooted at `i`: the first later node that is
/// not deeper than node `i`, or the end of the sequence.
pub open spec fn subtree_end_from(nodes: Seq<PreNode>, i: int, k: int) -> int
    decreases nodes.len() - k,
{
    if k >= nodes.len() || nodes[k].depth <= nodes[i].depth {
        k
    } else {
        subtree_end_from(nodes, i, k + 1)
    }
}

pub open spec fn subtree_end(nodes: Seq<PreNode>, i: int) -> int {
    subtree_end_from(nodes, i, i + 1)
}

pub proof fn lemma_subtree_end_bounds(nodes: Seq<PreNode>, i: int, k: int)
    requires
        0 <= i < k <= nodes.len(),
    ensures
        k <= subtree_end_from(nodes, i, k) <= nodes.len(),
        forall|m: int| k <= m < subtree_end_from(nodes, i, k) ==> nodes[m].depth > nodes[i].depth,
    decreases nodes.len() - k,
{
    if !(k >= nodes.len() || nodes[k].depth <= nodes[i].depth) {
        lemma_subtree_end_bounds(nodes, i, k + 1);
    }
}

/// Computes `subtree_end(nodes, i)`.
pub fn subtree_end_exec(nodes: &Vec<PreNode>, i: usize) -> (r: usize)
    requires
        i < nodes.len(),
    ensures
        r == subtree_end(nodes@, i as int),
        i < r <= nodes.len(),
{
    let mut k = i + 1;
    proof {
        lemma_subtree_end_bounds(nodes@, i as int, k as int);
    }
    while k < nodes.len() && nodes[k].depth > nodes[i].depth
        invariant
            i < k <= nodes.len(),
            subtree_end(nodes@, i as int) == subtree_end_from(nodes@, i as int, k as int),
        decreases nodes.len() - k,
    {
        k += 1;
    }
    k
}

} // verus!
