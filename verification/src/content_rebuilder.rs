//! Re-serializes parsed blocks into the HTML body posted to Strapi, putting
//! Strapi-hosted image URLs in place of the WordPress ones.
use std::collections::HashMap;

use vstd::prelude::*;

use crate::models::{block_view, BlockType, BlockView, ContentBlock};
use crate::text::{chars_of, extend_chars, extend_str, string_of};

verus! {

broadcast use vstd::std_specs::hash::group_hash_axioms;

/// HTML escaping of one character inside a quoted attribute.
pub open spec fn attr_escape_char(c: char) -> Seq<char> {
    if c == '&' {
        "&amp;"@
    } else if c == '<' {
        "&lt;"@
    } else if c == '>' {
        "&gt;"@
    } else if c == '"' {
        "&quot;"@
    } else if c == '\'' {
        "&#x27;"@
    } else {
        seq![c]
    }
}

/// `html_escape::encode_quoted_attribute`: `&`, `<`, `>`, `"` and `'` replaced
/// by their entities, every other character kept.
pub open spec fn attr_escape(s: Seq<char>) -> Seq<char>
    decreases s.len(),
{
    if s.len() == 0 {
        Seq::empty()
    } else {
        attr_escape(s.drop_last()) + attr_escape_char(s.last())
    }
}

/// `html_escape::encode_quoted_attribute`, which escapes `&` as `&amp;`, `<` as
/// `&lt;`, `>` as `&gt;`, `"` as `&quot;` and `'` as `&#x27;` and keeps every
/// other character.
#[verifier::external_body]
fn encode_quoted_attribute(s: &str) -> (r: String)
    ensures
        r@ == attr_escape(s@),
{
    html_escape::encode_quoted_attribute(s).into_owned()
}

/// `sorted` (ordered by index) with `x` inserted after every element whose
/// index is not greater.
pub open spec fn insert_by_index(sorted: Seq<BlockView>, x: BlockView) -> Seq<BlockView>
    decreases sorted.len(),
{
    if sorted.len() == 0 || sorted.last().index <= x.index {
        sorted.push(x)
    } else {
        insert_by_index(sorted.drop_last(), x).push(sorted.last())
    }
}

/// The blocks ordered by index, blocks of equal index keeping their order
/// (`sort_by_key`, a stable sort).
pub open spec fn sort_by_index(s: Seq<BlockView>) -> Seq<BlockView>
    decreases s.len(),
{
    if s.len() == 0 {
        Seq::empty()
    } else {
        insert_by_index(sort_by_index(s.drop_last()), s.last())
    }
}

/// The URL an image block is rendered with: its uploaded URL when one is known
/// and non-empty, else its own source.
pub open spec fn image_url_spec(b: BlockView, urls: Map<i32, String>) -> Seq<char> {
    if urls.contains_key(b.index) && urls[b.index]@.len() > 0 {
        urls[b.index]@
    } else {
        b.src
    }
}

/// The HTML a block contributes to the body.
pub open spec fn render_block(b: BlockView, urls: Map<i32, String>) -> Seq<char> {
    match b.block_type {
        BlockType::Cta => Seq::empty(),
        BlockType::Image => {
            let url = image_url_spec(b, urls);
            if url.len() == 0 {
                Seq::empty()
            } else {
                "<p><img src=\""@ + attr_escape(url) + "\" alt=\""@ + attr_escape(b.alt)
                    + "\"/></p>"@
            }
        },
        BlockType::Html => b.raw_html,
    }
}

pub open spec fn render_all(s: Seq<BlockView>, urls: Map<i32, String>) -> Seq<char>
    decreases s.len(),
{
    if s.len() == 0 {
        Seq::empty()
    } else {
        render_all(s.drop_last(), urls) + render_block(s.last(), urls)
    }
}

/// The body for a set of blocks: blocks in index order, CTAs left out (they
/// travel in their own payload field), images as `<p><img .../></p>` with the
/// uploaded URL, HTML verbatim.
pub open spec fn rebuild_spec(blocks: Seq<BlockView>, urls: Map<i32, String>) -> Seq<char> {
    render_all(sort_by_index(blocks), urls)
}

pub open spec fn views_at(blocks: Seq<ContentBlock>, order: Seq<usize>) -> Seq<BlockView> {
    order.map_values(|j: usize| block_view(blocks[j as int]))
}

proof fn lemma_insert_at(sorted: Seq<BlockView>, x: BlockView, p: int)
    requires
        0 <= p <= sorted.len(),
        p == 0 || sorted[p - 1].index <= x.index,
        forall|k: int| p <= k < sorted.len() ==> sorted[k].index > x.index,
    ensures
        insert_by_index(sorted, x) == sorted.take(p).push(x) + sorted.skip(p),
    decreases sorted.len(),
{
    if sorted.len() == 0 || sorted.last().index <= x.index {
        assert(p == sorted.len());
        assert(sorted.take(p) =~= sorted);
        assert(sorted.skip(p) =~= Seq::<BlockView>::empty());
        assert(sorted.take(p).push(x) + sorted.skip(p) =~= sorted.push(x));
    } else {
        let d = sorted.drop_last();
        lemma_insert_at(d, x, p);
        assert(d.take(p) =~= sorted.take(p));
        assert((d.take(p).push(x) + d.skip(p)).push(sorted.last()) =~= sorted.take(p).push(x)
            + sorted.skip(p));
    }
}

pub struct ContentRebuilder;

impl ContentRebuilder {
    /// HTML body of the blocks (see `rebuild_spec`).
    pub fn rebuild(blocks: &[ContentBlock], image_url_map: &HashMap<i32, String>) -> (r: String)
        ensures
            r@ == rebuild_spec(blocks@.map_values(|b: ContentBlock| block_view(b)), image_url_map@),
    {
        let ghost bv = blocks@.map_values(|b: ContentBlock| block_view(b));
        // Stable insertion sort of positions by block index.
        let mut order: Vec<usize> = Vec::new();
        for i in 0..blocks.len()
            invariant
                bv == blocks@.map_values(|b: ContentBlock| block_view(b)),
                forall|k: int| 0 <= k < order.len() ==> order@[k] < blocks.len(),
                views_at(blocks@, order@) == sort_by_index(bv.take(i as int)),
        {
            let key = blocks[i].index;
            let mut p = order.len();
            while p > 0 && blocks[order[p - 1]].index > key
                invariant
                    p <= order.len(),
                    forall|k: int| 0 <= k < order.len() ==> order@[k] < blocks.len(),
                    forall|k: int| p <= k < order.len() ==> blocks@[order@[k] as int].index > key,
                decreases p,
            {
                p -= 1;
            }
            let ghost sorted = views_at(blocks@, order@);
            proof {
                lemma_insert_at(sorted, block_view(blocks@[i as int]), p as int);
                assert(bv.take(i + 1).drop_last() =~= bv.take(i as int));
            }
            order.insert(p, i);
            assert(views_at(blocks@, order@) =~= sorted.take(p as int).push(block_view(blocks@[i as int]))
                + sorted.skip(p as int));
        }
        assert(bv.take(blocks.len() as int) =~= bv);
        let ghost sorted = views_at(blocks@, order@);
        let mut out: Vec<char> = Vec::new();
        for n in 0..order.len()
            invariant
                forall|k: int| 0 <= k < order.len() ==> order@[k] < blocks.len(),
                sorted == views_at(blocks@, order@),
                out@ == render_all(sorted.take(n as int), image_url_map@),
        {
            assert(sorted.take(n + 1).drop_last() =~= sorted.take(n as int));
            let blk = &blocks[order[n]];
            match blk.block_type {
                BlockType::Cta => {},
                BlockType::Image => {
                    let new_url: Vec<char> = match image_url_map.get(&blk.index) {
                        Some(u) => {
                            let uv = chars_of(u.as_str());
                            if uv.len() > 0 {
                                uv
                            } else {
                                chars_of(blk.src.as_str())
                            }
                        },
                        None => chars_of(blk.src.as_str()),
                    };
                    if new_url.len() > 0 {
                        let url_s = string_of(&new_url);
                        let alt = encode_quoted_attribute(blk.alt.as_str());
                        let url = encode_quoted_attribute(url_s.as_str());
                        let ghost before = out@;
                        extend_str(&mut out, "<p><img src=\"");
                        extend_str(&mut out, url.as_str());
                        extend_str(&mut out, "\" alt=\"");
                        extend_str(&mut out, alt.as_str());
                        extend_str(&mut out, "\"/></p>");
                        assert(out@ =~= before + render_block(sorted[n as int], image_url_map@));
                    }
                },
                BlockType::Html => {
                    extend_str(&mut out, blk.raw_html.as_str());
                },
            }
        }
        assert(sorted.take(order.len() as int) =~= sorted);
        string_of(&out)
    }
}

} // verus!
