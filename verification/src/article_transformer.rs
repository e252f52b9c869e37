//! WordPress post -> Strapi article payload, resolving WordPress ids to Strapi
//! document ids through the mapping tables.
use vstd::prelude::*;

use crate::cache::{MappingCache, MappingType, MappingView};
use crate::excerpt::{normalize_spec, normalize_title_spec, ExcerptNormalizer};
use crate::models::{
    block_view, BlockType, BlockView, ContentBlock, CoverImagePayload, RegistrationCtaBlock,
    StrapiArticlePayload, WpPost,
};
use crate::text::{
    chars_of, extend_chars, i64_decimal, int_decimal, is_ascii_alnum, is_ascii_alphanumeric,
    string_of, trim_char_seq, trim_matches_char,
};

verus! {

// ---------------- slug ----------------

pub open spec fn slug_char_allowed(c: char) -> bool {
    is_ascii_alnum(c) || c == '-' || c == '_' || c == '.' || c == '~'
}

/// Slug characters so far and whether the last one written is a dash.
pub open spec fn slug_state(s: Seq<char>) -> (Seq<char>, bool)
    decreases s.len(),
{
    if s.len() == 0 {
        (Seq::empty(), false)
    } else {
        let (out, last_dash) = slug_state(s.drop_last());
        let c = s.last();
        if slug_char_allowed(c) && c != '-' {
            (out.push(c), false)
        } else if !last_dash {
            (out.push('-'), true)
        } else {
            (out, last_dash)
        }
    }
}

/// Strapi slugs accept only `[A-Za-z0-9-_.~]`: every other character becomes
/// `-`, each run of dashes (written or replaced) collapses to a single `-`,
/// dashes are trimmed from both ends, and an empty result becomes `post-<wpId>`.
pub open spec fn sanitize_slug_spec(raw: Seq<char>, wp_id: i64) -> Seq<char> {
    let t = trim_char_seq(slug_state(raw).0, '-');
    if t.len() == 0 {
        "post-"@ + int_decimal(wp_id as int)
    } else {
        t
    }
}

// ---------------- id resolution ----------------

/// Document ids of the tags that are mapped performers, in tag order.
pub open spec fn mapped_ids(tags: Seq<i64>, v: MappingView, kind: MappingType) -> Seq<Seq<char>>
    decreases tags.len(),
{
    if tags.len() == 0 {
        Seq::empty()
    } else {
        let rest = mapped_ids(tags.drop_last(), v, kind);
        let id = tags.last();
        if v.performers_studios.contains_key(id) && v.performers_studios[id].0 == kind {
            rest.push(v.performers_studios[id].1)
        } else {
            rest
        }
    }
}

/// Abstract contents of a registration CTA entry.
pub open spec fn cta_entry_view(c: RegistrationCtaBlock) -> (bool, i32, Seq<char>, Seq<char>) {
    (c.enabled, c.position_after_paragraph, c.label@, c.url@)
}

/// One enabled entry per CTA block, in block order, positioned at the block's
/// index, labelled with its text and linking to its href.
pub open spec fn cta_entries(blocks: Seq<BlockView>) -> Seq<(bool, i32, Seq<char>, Seq<char>)>
    decreases blocks.len(),
{
    if blocks.len() == 0 {
        Seq::empty()
    } else {
        let rest = cta_entries(blocks.drop_last());
        let b = blocks.last();
        if b.block_type == BlockType::Cta {
            rest.push((true, b.index, b.text, b.href))
        } else {
            rest
        }
    }
}

/// Abstract contents of an article payload.
pub struct PayloadView {
    pub site: Seq<char>,
    pub title: Seq<char>,
    pub slug: Seq<char>,
    pub excerpt: Seq<char>,
    pub publish_date: Seq<char>,
    pub body: Seq<char>,
    pub ds_performers: Seq<Seq<char>>,
    pub ds_studios: Seq<Seq<char>>,
    pub cover_public: Option<i64>,
    pub cover_alt: Seq<char>,
    pub ds_author: Seq<char>,
    pub ds_sub_category: Seq<char>,
    pub allow_comment: bool,
    pub registration_cta_block: Seq<(bool, i32, Seq<char>, Seq<char>)>,
}

pub open spec fn payload_view(p: StrapiArticlePayload) -> PayloadView {
    PayloadView {
        site: p.site@,
        title: p.title@,
        slug: p.slug@,
        excerpt: p.excerpt@,
        publish_date: p.publish_date@,
        body: p.body@,
        ds_performers: p.ds_performers@.map_values(|s: String| s@),
        ds_studios: p.ds_studios@.map_values(|s: String| s@),
        cover_public: p.cover_image.public,
        cover_alt: p.cover_image.alt_tag@,
        ds_author: p.ds_author@,
        ds_sub_category: p.ds_sub_category@,
        allow_comment: p.allow_comment,
        registration_cta_block: p.registration_cta_block@.map_values(
            |c: RegistrationCtaBlock| cta_entry_view(c),
        ),
    }
}

/// The payload of a post whose body has been rebuilt.
pub open spec fn transform_spec(
    post: WpPost,
    rebuilt: Seq<char>,
    blocks: Seq<BlockView>,
    v: MappingView,
) -> PayloadView {
    PayloadView {
        site: "Daily_Squirt"@,
        title: normalize_title_spec(post.title@),
        slug: sanitize_slug_spec(post.slug@, post.id),
        excerpt: normalize_spec(post.excerpt@),
        publish_date: post.date@,
        body: rebuilt,
        ds_performers: mapped_ids(post.tag_ids@, v, MappingType::Performer),
        ds_studios: mapped_ids(post.tag_ids@, v, MappingType::Studio),
        cover_public: if post.cover_image.id > 0 {
            Some(post.cover_image.id)
        } else {
            None
        },
        cover_alt: post.cover_image.alt_text@,
        ds_author: MappingCache::author_document_id_spec(v, post.author_id),
        ds_sub_category: MappingCache::category_document_id_spec(v, post.categories),
        allow_comment: post.comments_enabled,
        registration_cta_block: cta_entries(blocks),
    }
}

pub struct ArticleTransformer;

impl ArticleTransformer {
    pub fn transform(
        post: &WpPost,
        rebuilt_content: &str,
        blocks: &[ContentBlock],
        cache: &MappingCache,
    ) -> (r: StrapiArticlePayload)
        ensures
            payload_view(r) == transform_spec(
                *post,
                rebuilt_content@,
                blocks@.map_values(|b: ContentBlock| block_view(b)),
                cache.view(),
            ),
    {
        let cover = CoverImagePayload {
            public: if post.cover_image.id > 0 {
                Some(post.cover_image.id)
            } else {
                None
            },
            alt_tag: post.cover_image.alt_text.clone(),
        };
        let r = StrapiArticlePayload {
            site: "Daily_Squirt".to_owned(),
            title: ExcerptNormalizer::normalize_title(post.title.as_str()),
            slug: Self::sanitize_slug(post.slug.as_str(), post.id),
            excerpt: ExcerptNormalizer::normalize(post.excerpt.as_str()),
            publish_date: post.date.clone(),
            body: rebuilt_content.to_owned(),
            ds_performers: Self::extract_performer_ids(&post.tag_ids, cache),
            ds_studios: Self::extract_studio_ids(&post.tag_ids, cache),
            cover_image: cover,
            ds_author: cache.get_author_document_id(post.author_id),
            ds_sub_category: cache.get_category_document_id(post.categories),
            allow_comment: post.comments_enabled,
            registration_cta_block: Self::extract_cta_blocks(blocks),
        };
        r
    }

    /// Slug accepted by Strapi (see `sanitize_slug_spec`).
    pub fn sanitize_slug(raw: &str, wp_id: i64) -> (r: String)
        ensures
            r@ == sanitize_slug_spec(raw@, wp_id),
    {
        let v = chars_of(raw);
        let mut out: Vec<char> = Vec::new();
        let mut last_dash = false;
        for i in 0..v.len()
            invariant
                v@ == raw@,
                (out@, last_dash) == slug_state(v@.take(i as int)),
        {
            assert(v@.take(i + 1).drop_last() == v@.take(i as int));
            let ch = v[i];
            let allowed = is_ascii_alphanumeric(ch) || ch == '-' || ch == '_' || ch == '.' || ch
                == '~';
            if allowed && ch != '-' {
                out.push(ch);
                last_dash = false;
            } else if !last_dash {
                out.push('-');
                last_dash = true;
            }
        }
        assert(v@.take(v.len() as int) == v@);
        let trimmed = trim_matches_char(&out, '-');
        if trimmed.len() == 0 {
            let mut s = chars_of("post-");
            let d = i64_decimal(wp_id);
            extend_chars(&mut s, &d);
            string_of(&s)
        } else {
            string_of(&trimmed)
        }
    }

    fn extract_ids(tag_ids: &Vec<i64>, cache: &MappingCache, kind: MappingType) -> (r: Vec<String>)
        ensures
            r@.map_values(|s: String| s@) == mapped_ids(tag_ids@, cache.view(), kind),
    {
        let mut out: Vec<String> = Vec::new();
        for i in 0..tag_ids.len()
            invariant
                out@.map_values(|s: String| s@) == mapped_ids(tag_ids@.take(i as int), cache.view(), kind),
        {
            assert(tag_ids@.take(i + 1).drop_last() == tag_ids@.take(i as int));
            let found = match kind {
                MappingType::Performer => cache.get_performer_document_id(tag_ids[i]),
                MappingType::Studio => cache.get_studio_document_id(tag_ids[i]),
            };
            match found {
                Some(d) => {
                    let ghost before = out@;
                    out.push(d);
                    assert(out@.map_values(|s: String| s@) =~= before.map_values(|s: String| s@).push(d@));
                },
                None => {},
            }
        }
        assert(tag_ids@.take(tag_ids.len() as int) == tag_ids@);
        out
    }

    /// Document ids of the post's tags that are mapped performers.
    pub fn extract_performer_ids(tag_ids: &Vec<i64>, cache: &MappingCache) -> (r: Vec<String>)
        ensures
            r@.map_values(|s: String| s@) == mapped_ids(tag_ids@, cache.view(), MappingType::Performer),
    {
        Self::extract_ids(tag_ids, cache, MappingType::Performer)
    }

    /// Document ids of the post's tags that are mapped studios.
    pub fn extract_studio_ids(tag_ids: &Vec<i64>, cache: &MappingCache) -> (r: Vec<String>)
        ensures
            r@.map_values(|s: String| s@) == mapped_ids(tag_ids@, cache.view(), MappingType::Studio),
    {
        Self::extract_ids(tag_ids, cache, MappingType::Studio)
    }

    /// Registration CTA entries of the CTA blocks (see `cta_entries`).
    pub fn extract_cta_blocks(blocks: &[ContentBlock]) -> (r: Vec<RegistrationCtaBlock>)
        ensures
            r@.map_values(|c: RegistrationCtaBlock| cta_entry_view(c)) == cta_entries(
                blocks@.map_values(|b: ContentBlock| block_view(b)),
            ),
    {
        let ghost bv = blocks@.map_values(|b: ContentBlock| block_view(b));
        let mut out: Vec<RegistrationCtaBlock> = Vec::new();
        for i in 0..blocks.len()
            invariant
                bv == blocks@.map_values(|b: ContentBlock| block_view(b)),
                out@.map_values(|c: RegistrationCtaBlock| cta_entry_view(c)) == cta_entries(
                    bv.take(i as int),
                ),
        {
            assert(bv.take(i + 1).drop_last() =~= bv.take(i as int));
            let b = &blocks[i];
            if b.block_type == BlockType::Cta {
                let e = RegistrationCtaBlock {
                    enabled: true,
                    position_after_paragraph: b.index,
                    label: b.text.clone(),
                    url: b.href.clone(),
                };
                let ghost before = out@;
                out.push(e);
                assert(out@.map_values(|c: RegistrationCtaBlock| cta_entry_view(c)) =~= before.map_values(
                    |c: RegistrationCtaBlock| cta_entry_view(c),
                ).push(cta_entry_view(e)));
            }
        }
        assert(bv.take(blocks.len() as int) =~= bv);
        out
    }
}

} // verus!
