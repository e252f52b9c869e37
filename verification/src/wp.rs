//! WordPress REST reading: the posts URLs (paged, or by id in groups of the
//! per-page cap), when paging stops, and how a post's JSON fields become a
//! `WpPost`. The caller performs the requests and extracts the JSON fields.
use vstd::prelude::*;

use crate::config::Config;
use crate::excerpt::{normalize_spec, normalize_title_spec, ExcerptNormalizer};
use crate::models::{CoverImage, WpComment, WpPost};
use crate::text::{
    chars_of, extend_chars, extend_str, i64_decimal, int_decimal, string_of, trim_end_char_seq,
    trim_end_matches_char,
};
use crate::error::join_seq;

verus! {

/// The WordPress REST API rejects `per_page` above this.
pub const WP_MAX_PER_PAGE: i32 = 100;

/// What the JSON of one comment (an element of `_embedded.replies[0]`) holds.
#[derive(Debug, Clone)]
pub struct RawWpComment {
    /// `id`, when an integer.
    pub id: Option<i64>,
    /// `date`, when a string.
    pub date: Option<String>,
    /// `content.rendered`, when a string.
    pub content: Option<String>,
    /// `author_avatar_urls.96`, when a string.
    pub avatar_96: Option<String>,
    /// `author`, when an integer.
    pub author: Option<i64>,
}

/// What the JSON of one featured media (an element of `_embedded["wp:featuredmedia"]`) holds.
#[derive(Debug, Clone)]
pub struct RawWpMedia {
    pub source_url: Option<String>,
    pub alt_text: Option<String>,
    pub slug: Option<String>,
}

/// The fields of a post's JSON that the migration reads; each is `None` when
/// absent or of another JSON type.
#[derive(Debug, Clone)]
pub struct RawWpPost {
    pub id: Option<i64>,
    pub modified: Option<String>,
    pub slug: Option<String>,
    /// `title.rendered`.
    pub title: Option<String>,
    /// `content.rendered`.
    pub content: Option<String>,
    /// `excerpt.rendered`.
    pub excerpt: Option<String>,
    /// `categories`, each element when an integer.
    pub categories: Option<Vec<Option<i64>>>,
    pub author: Option<i64>,
    pub comment_status: Option<String>,
    /// `tags`, each element when an integer.
    pub tags: Option<Vec<Option<i64>>>,
    /// `_embedded["wp:featuredmedia"]`.
    pub featured_media: Option<Vec<RawWpMedia>>,
    /// `_embedded.replies`, each element when it is an array.
    pub replies: Option<Vec<Option<Vec<RawWpComment>>>>,
}

pub open spec fn text_or_empty(o: Option<String>) -> Seq<char> {
    match o {
        Some(s) => s@,
        None => Seq::empty(),
    }
}

pub open spec fn int_or_zero(o: Option<i64>) -> i64 {
    match o {
        Some(x) => x,
        None => 0,
    }
}

/// The first category, when it is an integer; else 0.
pub open spec fn first_category(c: Option<Vec<Option<i64>>>) -> i64 {
    match c {
        Some(v) => if v@.len() > 0 {
            int_or_zero(v@[0])
        } else {
            0
        },
        None => 0,
    }
}

/// The integer tags, in order.
pub open spec fn int_tags(s: Seq<Option<i64>>) -> Seq<i64>
    decreases s.len(),
{
    if s.len() == 0 {
        Seq::empty()
    } else {
        let rest = int_tags(s.drop_last());
        match s.last() {
            Some(t) => rest.push(t),
            None => rest,
        }
    }
}

pub open spec fn tags_spec(t: Option<Vec<Option<i64>>>) -> Seq<i64> {
    match t {
        Some(v) => int_tags(v@),
        None => Seq::empty(),
    }
}

/// The cover: the first featured media's URL and alt text, the alt text falling
/// back to the media's slug when empty; id 0.
pub open spec fn cover_spec(m: Option<Vec<RawWpMedia>>) -> (i64, Seq<char>, Seq<char>) {
    match m {
        Some(v) => if v@.len() > 0 {
            let f = v@[0];
            let alt = text_or_empty(f.alt_text);
            (
                0,
                text_or_empty(f.source_url),
                if alt.len() == 0 {
                    text_or_empty(f.slug)
                } else {
                    alt
                },
            )
        } else {
            (0, Seq::empty(), Seq::empty())
        },
        None => (0, Seq::empty(), Seq::empty()),
    }
}

pub open spec fn comment_view(c: WpComment) -> (i64, Seq<char>, Seq<char>, Seq<char>, i64) {
    (c.id, c.date@, c.content@, c.avatar_url@, c.author_id)
}

pub open spec fn raw_comment_view(c: RawWpComment) -> (i64, Seq<char>, Seq<char>, Seq<char>, i64) {
    (
        int_or_zero(c.id),
        text_or_empty(c.date),
        normalize_title_spec(text_or_empty(c.content)),
        text_or_empty(c.avatar_96),
        int_or_zero(c.author),
    )
}

/// The comments: those of the first element of `replies` when it is an array.
pub open spec fn comments_spec(r: Option<Vec<Option<Vec<RawWpComment>>>>) -> Seq<
    (i64, Seq<char>, Seq<char>, Seq<char>, i64),
> {
    match r {
        Some(v) => if v@.len() > 0 {
            match v@[0] {
                Some(cs) => cs@.map_values(|c: RawWpComment| raw_comment_view(c)),
                None => Seq::empty(),
            }
        } else {
            Seq::empty()
        },
        None => Seq::empty(),
    }
}

/// A post built from its JSON fields: the id is required; text fields default
/// to empty and integers to 0; title and comments are reduced to trimmed plain
/// text, the excerpt is normalised; comments are enabled when the status is `open`.
pub open spec fn parse_post_ok(raw: RawWpPost, p: WpPost) -> bool {
    &&& raw.id == Some(p.id)
    &&& p.date@ == text_or_empty(raw.modified)
    &&& p.slug@ == text_or_empty(raw.slug)
    &&& p.title@ == normalize_title_spec(text_or_empty(raw.title))
    &&& p.content@ == text_or_empty(raw.content)
    &&& p.excerpt@ == normalize_spec(text_or_empty(raw.excerpt))
    &&& p.categories == first_category(raw.categories)
    &&& (p.cover_image.id, p.cover_image.source_url@, p.cover_image.alt_text@) == cover_spec(
        raw.featured_media,
    )
    &&& p.comments@.map_values(|c: WpComment| comment_view(c)) == comments_spec(raw.replies)
    &&& p.author_id == int_or_zero(raw.author)
    &&& p.tag_ids@ == tags_spec(raw.tags)
    &&& p.comments_enabled == (text_or_empty(raw.comment_status) == "open"@)
}

/// `/wp-json/wp/v2/posts?per_page=<n>&page=<p>` under the site, with the
/// embedding of featured media and replies when asked.
pub open spec fn posts_url_spec(base: Seq<char>, per_page: i32, page: i32, embed: bool) -> Seq<char> {
    trim_end_char_seq(base, '/') + "/wp-json/wp/v2/posts?per_page="@ + int_decimal(per_page as int)
        + "&page="@ + int_decimal(page as int) + if embed {
        "&_embed=wp:featuredmedia,replies"@
    } else {
        Seq::empty()
    }
}

/// `/wp-json/wp/v2/posts?include=<ids>&per_page=100` under the site.
pub open spec fn include_url_spec(base: Seq<char>, ids: Seq<i64>, embed: bool) -> Seq<char> {
    trim_end_char_seq(base, '/') + "/wp-json/wp/v2/posts?include="@ + join_seq(
        ids.map_values(|i: i64| int_decimal(i as int)),
        ","@,
    ) + "&per_page=100"@ + if embed {
        "&_embed=wp:featuredmedia,replies"@
    } else {
        Seq::empty()
    }
}

/// The ids of the `k`-th request of a fetch by ids: consecutive groups of 100.
pub open spec fn id_group(ids: Seq<i64>, k: int) -> Seq<i64> {
    ids.subrange(
        100 * k,
        if 100 * k + 100 <= ids.len() {
            100 * k + 100
        } else {
            ids.len() as int
        },
    )
}

/// What follows a fetched page of a paged read.
#[derive(Debug, Clone, Copy, PartialEq, Eq, Structural)]
pub enum PageStep {
    /// Keep the first `n` posts collected and stop.
    Stop(usize),
    /// Fetch this page next.
    Fetch(i32),
}

/// Reads posts from the WordPress REST API of `cfg.wp_base_url`.
#[derive(Debug, Clone)]
pub struct WpClient {
    pub cfg: Config,
}

impl WpClient {
    pub fn new(cfg: Config) -> (r: Self)
        ensures
            r.cfg == cfg,
    {
        WpClient { cfg }
    }

    /// URL of one page of posts (see `posts_url_spec`).
    pub fn build_posts_url(&self, per_page: i32, page: i32, embed: bool) -> (r: String)
        ensures
            r@ == posts_url_spec(self.cfg.wp_base_url@, per_page, page, embed),
    {
        let base = chars_of(self.cfg.wp_base_url.as_str());
        let mut out = trim_end_matches_char(&base, '/');
        extend_str(&mut out, "/wp-json/wp/v2/posts?per_page=");
        extend_chars(&mut out, &i64_decimal(per_page as i64));
        extend_str(&mut out, "&page=");
        extend_chars(&mut out, &i64_decimal(page as i64));
        if embed {
            extend_str(&mut out, "&_embed=wp:featuredmedia,replies");
        }
        string_of(&out)
    }

    /// Page size of a single-page read: the requested size, capped at the
    /// API's maximum.
    pub fn single_page_size(per_page: i32) -> (r: i32)
        ensures
            r == (if per_page < WP_MAX_PER_PAGE {
                per_page
            } else {
                WP_MAX_PER_PAGE
            }),
    {
        if per_page < WP_MAX_PER_PAGE {
            per_page
        } else {
            WP_MAX_PER_PAGE
        }
    }

    /// Decision of a paged read of `target` posts (pages of 100) after page
    /// `page` returned `got` posts, `collected` having been gathered in all: stop
    /// once the target is reached (keeping exactly `target`) or after a short
    /// page, else fetch the next page.
    pub fn after_page(target: usize, page: i32, got: usize, collected: usize) -> (r: PageStep)
        requires
            page < i32::MAX,
        ensures
            collected >= target ==> r == PageStep::Stop(target),
            collected < target && got < 100 ==> r == PageStep::Stop(collected),
            collected < target && got >= 100 ==> r == PageStep::Fetch((page + 1) as i32),
            r matches PageStep::Stop(n) ==> n <= target,
    {
        if collected >= target {
            PageStep::Stop(target)
        } else if got < 100 {
            PageStep::Stop(collected)
        } else {
            PageStep::Fetch(page + 1)
        }
    }

    fn include_url(&self, ids: &[i64], from: usize, to: usize, embed: bool) -> (r: String)
        requires
            from <= to <= ids@.len(),
        ensures
            r@ == include_url_spec(self.cfg.wp_base_url@, ids@.subrange(from as int, to as int), embed),
    {
        let ghost group = ids@.subrange(from as int, to as int);
        let base = chars_of(self.cfg.wp_base_url.as_str());
        let mut out = trim_end_matches_char(&base, '/');
        extend_str(&mut out, "/wp-json/wp/v2/posts?include=");
        let ghost prefix = out@;
        let mut joined: Vec<char> = Vec::new();
        let mut i = from;
        while i < to
            invariant
                from <= i <= to <= ids@.len(),
                group == ids@.subrange(from as int, to as int),
                joined@ == join_seq(
                    ids@.subrange(from as int, i as int).map_values(|x: i64| int_decimal(x as int)),
                    ","@,
                ),
            decreases to - i,
        {
            let d = i64_decimal(ids[i]);
            let ghost before = joined@;
            if i > from {
                joined.push(',');
            }
            extend_chars(&mut joined, &d);
            let ghost pre = ids@.subrange(from as int, i as int).map_values(|x: i64| int_decimal(x as int));
            let ghost post = ids@.subrange(from as int, i + 1).map_values(|x: i64| int_decimal(x as int));
            assert(post.drop_last() =~= pre);
            assert(post.last() == int_decimal(ids@[i as int] as int));
            proof {
                reveal_strlit(",");
            }
            if i == from {
                assert(joined@ =~= before + d@);
            } else {
                assert(joined@ =~= before + ","@ + d@);
            }
            i = i + 1;
        }
        extend_chars(&mut out, &joined);
        extend_str(&mut out, "&per_page=100");
        if embed {
            extend_str(&mut out, "&_embed=wp:featuredmedia,replies");
        }
        string_of(&out)
    }

    /// URLs of a read of specific posts: one per consecutive group of 100 ids.
    pub fn ids_urls(&self, ids: &[i64], embed: bool) -> (r: Vec<String>)
        ensures
            r@.len() == (ids@.len() + 99) / 100,
            forall|k: int|
                0 <= k < r@.len() ==> #[trigger] r@[k]@ == include_url_spec(
                    self.cfg.wp_base_url@,
                    id_group(ids@, k),
                    embed,
                ),
    {
        let n = ids.len();
        let mut out: Vec<String> = Vec::new();
        let mut from: usize = 0;
        while from < n
            invariant
                from <= n,
                n == ids@.len(),
                out@.len() == (from + 99) / 100,
                from < n ==> from == 100 * out@.len(),
                forall|k: int|
                    0 <= k < out@.len() ==> #[trigger] out@[k]@ == include_url_spec(
                        self.cfg.wp_base_url@,
                        id_group(ids@, k),
                        embed,
                    ),
            decreases n - from,
        {
            let to = if n - from >= 100 {
                from + 100
            } else {
                n
            };
            let u = self.include_url(ids, from, to, embed);
            let ghost k = out@.len() as int;
            assert(id_group(ids@, k) == ids@.subrange(from as int, to as int));
            out.push(u);
            from = to;
        }
        out
    }

    fn comment_of(c: &RawWpComment) -> (r: WpComment)
        ensures
            comment_view(r) == raw_comment_view(*c),
    {
        let content = match &c.content {
            Some(s) => ExcerptNormalizer::normalize_comment(s.as_str()),
            None => {
                proof {
                    reveal_strlit("");
                }
                ExcerptNormalizer::normalize_comment("")
            },
        };
        WpComment {
            id: match c.id {
                Some(x) => x,
                None => 0,
            },
            date: match &c.date {
                Some(s) => s.clone(),
                None => String::new(),
            },
            content,
            avatar_url: match &c.avatar_96 {
                Some(s) => s.clone(),
                None => String::new(),
            },
            author_id: match c.author {
                Some(x) => x,
                None => 0,
            },
        }
    }

    fn cover_of(m: &Option<Vec<RawWpMedia>>) -> (r: CoverImage)
        ensures
            (r.id, r.source_url@, r.alt_text@) == cover_spec(*m),
    {
        let mut cover = CoverImage { id: 0, source_url: String::new(), alt_text: String::new() };
        match m {
            Some(v) => {
                if v.len() > 0 {
                    let first = &v[0];
                    match &first.source_url {
                        Some(s) => cover.source_url = s.clone(),
                        None => {},
                    }
                    match &first.alt_text {
                        Some(s) => cover.alt_text = s.clone(),
                        None => {},
                    }
                    if cover.alt_text.as_str().is_empty() {
                        match &first.slug {
                            Some(s) => cover.alt_text = s.clone(),
                            None => {},
                        }
                    }
                }
            },
            None => {},
        }
        cover
    }

    /// The post described by a JSON item (see `parse_post_ok`); `None` when it
    /// has no integer id.
    pub fn parse_post(raw: &RawWpPost) -> (r: Option<WpPost>)
        ensures
            raw.id is None <==> r is None,
            r matches Some(p) ==> parse_post_ok(*raw, p),
    {
        let id = match raw.id {
            Some(x) => x,
            None => {
                return None;
            },
        };
        let text = |o: &Option<String>| -> (t: String)
            ensures
                t@ == text_or_empty(*o),
            {
                match o {
                    Some(s) => s.clone(),
                    None => String::new(),
                }
            };
        let title_raw = text(&raw.title);
        let excerpt_raw = text(&raw.excerpt);
        let categories = match &raw.categories {
            Some(v) => if v.len() > 0 {
                match v[0] {
                    Some(x) => x,
                    None => 0,
                }
            } else {
                0
            },
            None => 0,
        };
        let mut tag_ids: Vec<i64> = Vec::new();
        match &raw.tags {
            Some(v) => {
                for i in 0..v.len()
                    invariant
                        tag_ids@ == int_tags(v@.take(i as int)),
                {
                    assert(v@.take(i + 1).drop_last() =~= v@.take(i as int));
                    match v[i] {
                        Some(t) => tag_ids.push(t),
                        None => {},
                    }
                }
                assert(v@.take(v.len() as int) =~= v@);
            },
            None => {},
        }
        let mut comments: Vec<WpComment> = Vec::new();
        match &raw.replies {
            Some(v) => {
                if v.len() > 0 {
                    match &v[0] {
                        Some(cs) => {
                            for i in 0..cs.len()
                                invariant
                                    comments@.len() == i,
                                    forall|k: int|
                                        0 <= k < i ==> comment_view(#[trigger] comments@[k])
                                            == raw_comment_view(cs@[k]),
                            {
                                comments.push(Self::comment_of(&cs[i]));
                            }
                            assert(comments@.map_values(|c: WpComment| comment_view(c))
                                =~= cs@.map_values(|c: RawWpComment| raw_comment_view(c)));
                        },
                        None => {
                            assert(comments@.map_values(|c: WpComment| comment_view(c))
                                =~= Seq::<(i64, Seq<char>, Seq<char>, Seq<char>, i64)>::empty());
                        },
                    }
                } else {
                    assert(comments@.map_values(|c: WpComment| comment_view(c))
                        =~= Seq::<(i64, Seq<char>, Seq<char>, Seq<char>, i64)>::empty());
                }
            },
            None => {
                assert(comments@.map_values(|c: WpComment| comment_view(c))
                    =~= Seq::<(i64, Seq<char>, Seq<char>, Seq<char>, i64)>::empty());
            },
        }
        let status = text(&raw.comment_status);
        let sv = chars_of(status.as_str());
        let open = chars_of("open");
        let comments_enabled = crate::text::chars_eq(&sv, &open);
        Some(
            WpPost {
                id,
                date: text(&raw.modified),
                slug: text(&raw.slug),
                title: ExcerptNormalizer::normalize_title(title_raw.as_str()),
                content: text(&raw.content),
                excerpt: ExcerptNormalizer::normalize(excerpt_raw.as_str()),
                categories,
                cover_image: Self::cover_of(&raw.featured_media),
                comments,
                author_id: match raw.author {
                    Some(x) => x,
                    None => 0,
                },
                tag_ids,
                comments_enabled,
            },
        )
    }
}

} // verus!
