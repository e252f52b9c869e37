//! The per-article migration pipeline as a state machine: parse the body,
//! upload the cover, relocate the body images (all or nothing), rebuild and
//! transform the article, POST it with bounded retries, then post its comments.
//! Each method takes what the last outside step returned and says what to do
//! next; the caller performs the uploads, requests, sleeps and file writes.
use std::collections::HashMap;

use vstd::prelude::*;

use crate::article_transformer::{
    cta_entry_view, payload_view, transform_spec, ArticleTransformer, PayloadView,
};
use crate::cache::MappingCache;
use crate::content_parser::{parse_spec, ContentParser};
use crate::content_rebuilder::{rebuild_spec, ContentRebuilder};
use crate::error::{
    backoff_spec, classify_http_spec, error_type_name, is_retryable_spec, retry_decision,
    retry_decision_spec, ErrorClassifier, ErrorType, RetryDecision,
};
use crate::excerpt::{normalize_title_spec, ExcerptNormalizer};
use crate::json::{
    array, bool_text, char_views, int_text, json_array, json_bool, json_int, json_member,
    json_null, json_object, json_string, json_string_array, member, null_text, object, quote,
    string_array,
};
use crate::logging::RetryContext;
use crate::models::{
    block_views, BlockType, CommentFailureRecord, ContentBlock, CoverImagePayload,
    ImageProcessingResult, PartialArticleRecord, RegistrationCtaBlock, StrapiArticlePayload,
    WpPost, comment_record_blank, partial_record_blank,
};
use crate::text::{
    chars_of, extend_chars, extend_str, int_decimal, nat_digits, string_of, truncate,
    truncate_spec, u64_digits,
};

verus! {

broadcast use vstd::std_specs::hash::group_hash_axioms;

/// Attempts at posting one article.
pub const MAX_ARTICLE_RETRIES: u32 = 3;

// ---------------- request bodies ----------------

/// `{"connect":[ids...]}`.
pub open spec fn connect_json(ids: Seq<Seq<char>>) -> Seq<char> {
    json_object(seq![json_member("connect"@, json_string_array(ids))])
}

/// The cover object: its alt text, and its media id when positive (else `null`).
pub open spec fn cover_json(public: Option<i64>, alt: Seq<char>) -> Seq<char> {
    let p = match public {
        Some(id) => if id > 0 {
            json_int(id as int)
        } else {
            json_null()
        },
        None => json_null(),
    };
    json_object(seq![json_member("AltTag"@, json_string(alt)), json_member("Public"@, p)])
}

/// One registration CTA entry.
pub open spec fn cta_json(c: (bool, i32, Seq<char>, Seq<char>)) -> Seq<char> {
    json_object(
        seq![
            json_member("Enabled"@, json_bool(c.0)),
            json_member("label"@, json_string(c.2)),
            json_member("position_after_paragraph"@, json_int(c.1 as int)),
            json_member("url"@, json_string(c.3)),
        ],
    )
}

pub open spec fn optional(present: bool, m: Seq<char>) -> Seq<Seq<char>> {
    if present {
        seq![m]
    } else {
        Seq::empty()
    }
}

/// The members that every article carries, in key order.
pub open spec fn article_base_members(p: PayloadView) -> Seq<Seq<char>> {
    seq![
        json_member("Allow_Comment"@, json_bool(p.allow_comment)),
        json_member("Body"@, json_string(p.body)),
        json_member("Cover_Image"@, cover_json(p.cover_public, p.cover_alt)),
        json_member("Excerpt"@, json_string(p.excerpt)),
        json_member("Publish_Date"@, json_string(p.publish_date)),
        json_member("Site"@, json_string(p.site)),
        json_member("Slug"@, json_string(p.slug)),
        json_member("Title"@, json_string(p.title)),
    ]
}

/// All members of the article's `data` object, in key order: the relations
/// and the CTA list only when they are not empty.
pub open spec fn article_members(p: PayloadView) -> Seq<Seq<char>> {
    article_base_members(p) + optional(
        p.ds_author.len() > 0,
        json_member("ds_author"@, connect_json(seq![p.ds_author])),
    ) + optional(
        p.ds_performers.len() > 0,
        json_member("ds_performers"@, connect_json(p.ds_performers)),
    ) + optional(
        p.ds_studios.len() > 0,
        json_member("ds_studios"@, connect_json(p.ds_studios)),
    ) + optional(
        p.ds_sub_category.len() > 0,
        json_member("ds_sub_category"@, connect_json(seq![p.ds_sub_category])),
    ) + optional(
        p.registration_cta_block.len() > 0,
        json_member(
            "registration_cta_block"@,
            json_array(p.registration_cta_block.map_values(|c: (bool, i32, Seq<char>, Seq<char>)| cta_json(c))),
        ),
    )
}

/// The body POSTed to create an article.
pub open spec fn article_json_spec(p: PayloadView) -> Seq<char> {
    json_object(seq![json_member("data"@, json_object(article_members(p)))])
}

/// The body POSTed for one comment.
pub open spec fn comment_json_spec(text: Seq<char>, document_id: Seq<char>, user_id: i64, date: Seq<char>) -> Seq<
    char,
> {
    json_object(
        seq![
            json_member(
                "data"@,
                json_object(
                    seq![
                        json_member("Comment"@, json_string(text)),
                        json_member("articleId"@, connect_json(seq![document_id])),
                        json_member("commentedAt"@, json_string(date)),
                        json_member("userId"@, json_int(user_id as int)),
                    ],
                ),
            ),
        ],
    )
}

fn connect_text(ids: &Vec<String>) -> (out: Vec<char>)
    ensures
        out@ == connect_json(ids@.map_values(|s: String| s@)),
{
    let mut m: Vec<Vec<char>> = Vec::new();
    m.push(member("connect", string_array(ids)));
    let out = object(&m);
    assert(char_views(m@) =~= seq![
        json_member("connect"@, json_string_array(ids@.map_values(|s: String| s@))),
    ]);
    out
}

fn connect_one(id: &String) -> (out: Vec<char>)
    ensures
        out@ == connect_json(seq![id@]),
{
    let mut ids: Vec<String> = Vec::new();
    ids.push(id.clone());
    assert(ids@.map_values(|s: String| s@) =~= seq![id@]);
    connect_text(&ids)
}

fn cover_text(c: &CoverImagePayload) -> (out: Vec<char>)
    ensures
        out@ == cover_json(c.public, c.alt_tag@),
{
    let p = match c.public {
        Some(id) => if id > 0 {
            int_text(id)
        } else {
            null_text()
        },
        None => null_text(),
    };
    let mut m: Vec<Vec<char>> = Vec::new();
    m.push(member("AltTag", quote(c.alt_tag.as_str())));
    m.push(member("Public", p));
    let out = object(&m);
    assert(char_views(m@) =~= seq![
        json_member("AltTag"@, json_string(c.alt_tag@)),
        json_member("Public"@, p@),
    ]);
    out
}

fn cta_text(c: &RegistrationCtaBlock) -> (out: Vec<char>)
    ensures
        out@ == cta_json(cta_entry_view(*c)),
{
    let mut m: Vec<Vec<char>> = Vec::new();
    m.push(member("Enabled", bool_text(c.enabled)));
    m.push(member("label", quote(c.label.as_str())));
    m.push(member("position_after_paragraph", int_text(c.position_after_paragraph as i64)));
    m.push(member("url", quote(c.url.as_str())));
    let out = object(&m);
    assert(char_views(m@) =~= seq![
        json_member("Enabled"@, json_bool(c.enabled)),
        json_member("label"@, json_string(c.label@)),
        json_member("position_after_paragraph"@, json_int(c.position_after_paragraph as int)),
        json_member("url"@, json_string(c.url@)),
    ]);
    out
}

/// The members of the article body that every article has.
fn article_base(payload: &StrapiArticlePayload) -> (m: Vec<Vec<char>>)
    ensures
        char_views(m@) == article_base_members(payload_view(*payload)),
{
    let mut m: Vec<Vec<char>> = Vec::new();
    m.push(member("Allow_Comment", bool_text(payload.allow_comment)));
    m.push(member("Body", quote(payload.body.as_str())));
    m.push(member("Cover_Image", cover_text(&payload.cover_image)));
    m.push(member("Excerpt", quote(payload.excerpt.as_str())));
    m.push(member("Publish_Date", quote(payload.publish_date.as_str())));
    m.push(member("Site", quote(payload.site.as_str())));
    m.push(member("Slug", quote(payload.slug.as_str())));
    m.push(member("Title", quote(payload.title.as_str())));
    assert(char_views(m@) =~= article_base_members(payload_view(*payload)));
    m
}

/// The JSON array of the article's registration CTA entries.
fn cta_array(payload: &StrapiArticlePayload) -> (out: Vec<char>)
    ensures
        out@ == json_array(
            payload_view(*payload).registration_cta_block.map_values(
                |c: (bool, i32, Seq<char>, Seq<char>)| cta_json(c),
            ),
        ),
{
    let ghost p = payload_view(*payload);
    let mut items: Vec<Vec<char>> = Vec::new();
    for i in 0..payload.registration_cta_block.len()
        invariant
            items.len() == i,
            forall|k: int|
                0 <= k < i ==> items@[k]@ == cta_json(
                    cta_entry_view(payload.registration_cta_block@[k]),
                ),
    {
        items.push(cta_text(&payload.registration_cta_block[i]));
    }
    assert(char_views(items@) =~= p.registration_cta_block.map_values(
        |c: (bool, i32, Seq<char>, Seq<char>)| cta_json(c),
    ));
    array(&items)
}

/// The JSON body that creates the article in Strapi (see `article_json_spec`).
#[verifier::rlimit(30)]
pub fn article_json(payload: &StrapiArticlePayload) -> (r: String)
    ensures
        r@ == article_json_spec(payload_view(*payload)),
{
    let ghost p = payload_view(*payload);
    let mut m = article_base(payload);
    let ghost acc = article_base_members(p);
    if !payload.ds_author.as_str().is_empty() {
        m.push(member("ds_author", connect_one(&payload.ds_author)));
    }
    proof {
        acc = acc + optional(p.ds_author.len() > 0, json_member("ds_author"@, connect_json(seq![p.ds_author])));
    }
    assert(char_views(m@) =~= acc);
    if payload.ds_performers.len() > 0 {
        m.push(member("ds_performers", connect_text(&payload.ds_performers)));
    }
    proof {
        acc = acc + optional(p.ds_performers.len() > 0, json_member("ds_performers"@, connect_json(p.ds_performers)));
    }
    assert(char_views(m@) =~= acc);
    if payload.ds_studios.len() > 0 {
        m.push(member("ds_studios", connect_text(&payload.ds_studios)));
    }
    proof {
        acc = acc + optional(p.ds_studios.len() > 0, json_member("ds_studios"@, connect_json(p.ds_studios)));
    }
    assert(char_views(m@) =~= acc);
    if !payload.ds_sub_category.as_str().is_empty() {
        m.push(member("ds_sub_category", connect_one(&payload.ds_sub_category)));
    }
    proof {
        acc = acc + optional(
            p.ds_sub_category.len() > 0,
            json_member("ds_sub_category"@, connect_json(seq![p.ds_sub_category])),
        );
    }
    assert(char_views(m@) =~= acc);
    if payload.registration_cta_block.len() > 0 {
        m.push(member("registration_cta_block", cta_array(payload)));
    }
    proof {
        acc = acc + optional(
            p.registration_cta_block.len() > 0,
            json_member(
                "registration_cta_block"@,
                json_array(p.registration_cta_block.map_values(|c: (bool, i32, Seq<char>, Seq<char>)| cta_json(c))),
            ),
        );
    }
    assert(char_views(m@) =~= article_members(p));
    let data = object(&m);
    let mut outer: Vec<Vec<char>> = Vec::new();
    outer.push(member("data", data));
    assert(char_views(outer@) =~= seq![json_member("data"@, json_object(article_members(p)))]);
    let out = object(&outer);
    string_of(&out)
}

/// The JSON body that posts one comment (see `comment_json_spec`).
pub fn comment_json(text: &str, document_id: &String, user_id: i64, date: &str) -> (r: String)
    ensures
        r@ == comment_json_spec(text@, document_id@, user_id, date@),
{
    let mut m: Vec<Vec<char>> = Vec::new();
    m.push(member("Comment", quote(text)));
    m.push(member("articleId", connect_one(document_id)));
    m.push(member("commentedAt", quote(date)));
    m.push(member("userId", int_text(user_id)));
    assert(char_views(m@) =~= seq![
        json_member("Comment"@, json_string(text@)),
        json_member("articleId"@, connect_json(seq![document_id@])),
        json_member("commentedAt"@, json_string(date@)),
        json_member("userId"@, json_int(user_id as int)),
    ]);
    let data = object(&m);
    let mut outer: Vec<Vec<char>> = Vec::new();
    outer.push(member("data", data));
    assert(char_views(outer@) =~= seq![
        json_member(
            "data"@,
            json_object(
                seq![
                    json_member("Comment"@, json_string(text@)),
                    json_member("articleId"@, connect_json(seq![document_id@])),
                    json_member("commentedAt"@, json_string(date@)),
                    json_member("userId"@, json_int(user_id as int)),
                ],
            ),
        ),
    ]);
    let out = object(&outer);
    string_of(&out)
}


// ---------------- retry logging ----------------

pub open spec fn next_retry_spec(attempt: u32, t: ErrorType) -> int {
    if is_retryable_spec(t) && attempt < MAX_ARTICLE_RETRIES {
        backoff_spec(attempt as nat) as int
    } else {
        0
    }
}

/// The retry context logged after a failed article POST (attempt `attempt` of
/// `MAX_ARTICLE_RETRIES`): the wait before the next attempt, 0 when none follows.
pub fn retry_context(attempt: u32, error_type: ErrorType) -> (r: RetryContext)
    requires
        1 <= attempt <= MAX_ARTICLE_RETRIES,
    ensures
        r.attempt_number == attempt,
        r.max_attempts == MAX_ARTICLE_RETRIES,
        r.next_retry_in_ms == next_retry_spec(attempt, error_type),
        r.previous_error_type@ == error_type_name(error_type),
{
    let next = match retry_decision(attempt, MAX_ARTICLE_RETRIES, error_type) {
        RetryDecision::WaitMs(ms) => {
            proof {
                assert(crate::error::pow3(0) == 1 && crate::error::pow2(0) == 1);
                assert(crate::error::pow3(1) == 3 && crate::error::pow2(1) == 2);
                assert(attempt < MAX_ARTICLE_RETRIES);
                if attempt == 1 {
                    assert(backoff_spec(1) == (2000 * 1 + 1) / (2 * 1));
                    assert(2001int / 2 == 1000) by (nonlinear_arith);
                    assert(backoff_spec(attempt as nat) == 1000);
                } else {
                    assert(attempt == 2);
                    assert(backoff_spec(2) == (2000 * 3 + 2) / (2 * 2));
                    assert(6002int / 4 == 1500) by (nonlinear_arith);
                    assert(backoff_spec(attempt as nat) == 1500);
                }
                assert(ms == backoff_spec(attempt as nat));
            }
            assert(ms <= 2250);
            ms as i32
        },
        RetryDecision::GiveUp => 0,
        RetryDecision::WaitLongBackoff(_) => 0,
    };
    RetryContext {
        attempt_number: attempt as i32,
        max_attempts: MAX_ARTICLE_RETRIES as i32,
        next_retry_in_ms: next,
        previous_error_type: error_type.name().to_owned(),
    }
}

// ---------------- state machine ----------------

/// What a POST of the article returned.
#[derive(Debug)]
pub enum ArticleReply {
    /// No response: the error's text and its classification.
    Failed { message: String, error_type: ErrorType },
    /// An HTTP response. `created` holds what the body's JSON has at
    /// `/data/documentId` (a string) and `/data/id` (an integer); it is `None`
    /// when the body is not JSON.
    Response { status: u16, body: String, created: Option<(Option<String>, Option<i64>)> },
}

/// What a POST of a comment returned.
#[derive(Debug)]
pub enum CommentReply {
    /// No response: the error's text.
    Failed { message: String },
    /// An HTTP response.
    Response { status: u16, body: String },
}

/// The Strapi id of a created article: its `documentId`, else its numeric id in
/// decimal, else empty.
pub open spec fn document_id_spec(created: Option<(Option<String>, Option<i64>)>) -> Seq<char> {
    match created {
        Some((Some(d), _)) => d@,
        Some((None, Some(id))) => int_decimal(id as int),
        _ => Seq::empty(),
    }
}

/// The reason recorded when every POST of the article failed.
pub open spec fn post_failure_reason(status: u16, last_error: Option<String>, body: Seq<char>) -> Seq<char> {
    "Article POST failed with HTTP "@ + nat_digits(status as nat) + ". "@ + match last_error {
        Some(e) => e@,
        None => truncate_spec(body, 200),
    }
}

/// The reason recorded for a comment that could not be posted.
pub open spec fn comment_failure_reason(reply: CommentReply) -> Seq<char> {
    match reply {
        CommentReply::Failed { message } => message@,
        CommentReply::Response { status, body } => "HTTP "@ + nat_digits(status as nat) + ": "@
            + truncate_spec(body@, 200),
    }
}

pub open spec fn comment_reply_ok(reply: CommentReply) -> bool {
    reply matches CommentReply::Response { status, .. } && 200 <= status < 300
}

/// Positions of the image blocks, in order.
pub open spec fn image_positions_spec(blocks: Seq<ContentBlock>) -> Seq<usize>
    decreases blocks.len(),
{
    if blocks.len() == 0 {
        Seq::empty()
    } else {
        let rest = image_positions_spec(blocks.drop_last());
        if blocks.last().block_type == BlockType::Image {
            rest.push((blocks.len() - 1) as usize)
        } else {
            rest
        }
    }
}

/// The record saved when the body images could not all be relocated.
pub open spec fn image_failure_record(rec: PartialArticleRecord, post: WpPost, result: ImageProcessingResult) -> bool {
    &&& rec.wp_post_id == post.id
    &&& rec.strapi_article_doc_id@.len() == 0
    &&& rec.title == post.title
    &&& rec.cover_image_strapi_id == post.cover_image.id
    &&& rec.uploaded_images@ == result.url_mapping@
    &&& rec.failed_image_urls@ == result.failed_image_urls@
    &&& rec.failure_reason == result.failure_reason
    &&& rec.upload_attempts == 1
    &&& rec.article_creation_attempts == 0
    &&& rec.created_at_unix == rec.updated_at_unix
}

/// The record saved when the article could not be posted after its images were uploaded.
pub open spec fn post_failure_record(
    rec: PartialArticleRecord,
    post: WpPost,
    urls: Map<i32, String>,
    reason: Seq<char>,
    attempts: u32,
) -> bool {
    &&& rec.wp_post_id == post.id
    &&& rec.strapi_article_doc_id@.len() == 0
    &&& rec.title == post.title
    &&& rec.cover_image_strapi_id == post.cover_image.id
    &&& rec.uploaded_images@ == urls
    &&& rec.failed_image_urls@.len() == 0
    &&& rec.failure_reason@ == reason
    &&& rec.upload_attempts == 1
    &&& rec.article_creation_attempts == attempts
    &&& rec.created_at_unix == rec.updated_at_unix
}

/// The record kept for a comment that could not be posted.
pub open spec fn comment_failure_record(
    rec: CommentFailureRecord,
    post_id: i64,
    comment_id: i64,
    document_id: String,
    text: Seq<char>,
    author_id: i64,
    date: String,
    reason: Seq<char>,
) -> bool {
    &&& rec.wp_comment_id == comment_id
    &&& rec.wp_post_id == post_id
    &&& rec.strapi_article_doc_id == document_id
    &&& rec.comment_content@ == text
    &&& rec.author_id == author_id
    &&& rec.original_date == date
    &&& rec.failure_reason@ == reason
    &&& rec.posting_attempts == 1
    &&& rec.created_at_unix == rec.updated_at_unix
}

/// `r` fails the article with the reason built from the last outcome, and with a
/// partial record exactly when images had been uploaded.
pub open spec fn post_failed(
    r: PostStep,
    status: u16,
    last_error: Option<String>,
    body: Seq<char>,
    post: WpPost,
    urls: Map<i32, String>,
    attempts: u32,
) -> bool {
    match r {
        PostStep::Failed { reason, partial } => {
            &&& reason@ == post_failure_reason(status, last_error, body)
            &&& if urls.len() > 0 {
                match partial {
                    Some(rec) => post_failure_record(rec, post, urls, reason@, attempts),
                    None => false,
                }
            } else {
                partial is None
            }
        },
        _ => false,
    }
}

/// What follows the relocation of the body images.
#[derive(Debug)]
pub enum ImagesStep {
    /// Save this record for a later retry; the article fails.
    SavePartial(PartialArticleRecord),
    /// The author has no Strapi mapping; the article fails.
    MissingAuthor,
    /// POST `payload_json`.
    Post,
}

/// What follows a POST of the article.
#[derive(Debug)]
pub enum PostStep {
    /// The article exists in Strapi as `document_id`; post the comments next.
    Posted,
    /// Sleep this many milliseconds, then POST again.
    Retry(u64),
    /// The article fails with `reason`; `partial` is saved when present.
    Failed { reason: String, partial: Option<PartialArticleRecord> },
}

/// The state of one article's migration.
pub struct ArticleRun {
    /// The post; its cover id is the uploaded cover's media id once known.
    pub post: WpPost,
    pub blocks: Vec<ContentBlock>,
    /// Block index -> relocated image URL.
    pub url_mapping: HashMap<i32, String>,
    pub payload_json: String,
    /// POST attempts made so far.
    pub attempts: u32,
    pub document_id: String,
    pub last_status: u16,
    pub last_body: String,
    pub last_error: Option<String>,
    /// Position in `post.comments` of the next comment to post.
    pub next_comment: usize,
    pub succeeded_comments: usize,
    pub failed_comments: Vec<CommentFailureRecord>,
}

impl ArticleRun {
    /// Parses the body of `post`; nothing has been sent yet.
    pub fn start(post: WpPost) -> (r: ArticleRun)
        ensures
            r.post == post,
            block_views(r.blocks@) == parse_spec(post.content@),
            r.url_mapping@ == Map::<i32, String>::empty(),
            r.payload_json@.len() == 0,
            r.attempts == 0,
            r.document_id@.len() == 0,
            r.last_status == 0,
            r.last_body@.len() == 0,
            r.last_error is None,
            r.next_comment == 0,
            r.succeeded_comments == 0,
            r.failed_comments@.len() == 0,
    {
        let blocks = ContentParser::parse(post.content.as_str());
        ArticleRun {
            post,
            blocks,
            url_mapping: HashMap::new(),
            payload_json: String::new(),
            attempts: 0,
            document_id: String::new(),
            last_status: 0,
            last_body: String::new(),
            last_error: None,
            next_comment: 0,
            succeeded_comments: 0,
            failed_comments: Vec::new(),
        }
    }

    /// The cover to upload: the post's cover URL when it has one.
    pub fn cover_request(&self) -> (r: Option<String>)
        ensures
            r == (if self.post.cover_image.source_url@.len() > 0 {
                Some(self.post.cover_image.source_url)
            } else {
                None
            }),
    {
        if self.post.cover_image.source_url.as_str().is_empty() {
            None
        } else {
            Some(self.post.cover_image.source_url.clone())
        }
    }

    /// Records the cover upload: its media id, or -1 when it failed (the article
    /// goes on without a cover).
    pub fn on_cover(&mut self, media_id: Option<i64>)
        ensures
            final(self).post.cover_image.id == (match media_id {
                Some(id) => id,
                None => -1i64,
            }),
            final(self).post.cover_image.source_url == old(self).post.cover_image.source_url,
            final(self).post.cover_image.alt_text == old(self).post.cover_image.alt_text,
            final(self).post == (WpPost { cover_image: final(self).post.cover_image, ..old(self).post }),
            *final(self) == (ArticleRun { post: final(self).post, ..*old(self) }),
    {
        self.post.cover_image.id = match media_id {
            Some(id) => id,
            None => -1,
        };
    }

    /// Positions of the image blocks to relocate, or `None` when the body has no
    /// block at all (the article fails).
    pub fn image_positions(&self) -> (r: Option<Vec<usize>>)
        ensures
            r is None <==> self.blocks@.len() == 0,
            r matches Some(v) ==> v@ == image_positions_spec(self.blocks@),
    {
        if self.blocks.len() == 0 {
            return None;
        }
        let mut out: Vec<usize> = Vec::new();
        for i in 0..self.blocks.len()
            invariant
                out@ == image_positions_spec(self.blocks@.take(i as int)),
        {
            assert(self.blocks@.take(i + 1).drop_last() =~= self.blocks@.take(i as int));
            if self.blocks[i].is_image() {
                out.push(i);
            }
        }
        assert(self.blocks@.take(self.blocks.len() as int) =~= self.blocks@);
        Some(out)
    }

    /// Takes the outcome of the strict image relocation. On failure the article
    /// stops and a partial record is returned; on success the body is rebuilt
    /// with the new URLs, transformed, and, when the author is mapped, its JSON
    /// body is stored in `payload_json`.
    pub fn on_images(&mut self, result: ImageProcessingResult, cache: &MappingCache) -> (r: ImagesStep)
        ensures
            !result.success ==> (r matches ImagesStep::SavePartial(rec) && image_failure_record(
                rec,
                old(self).post,
                result,
            ) && *final(self) == *old(self)),
            result.success ==> ({
                let bv = block_views(old(self).blocks@);
                let p = transform_spec(
                    old(self).post,
                    rebuild_spec(bv, result.url_mapping@),
                    bv,
                    cache.view(),
                );
                &&& final(self).url_mapping@ == result.url_mapping@
                &&& (p.ds_author.len() == 0 ==> r is MissingAuthor && final(self).payload_json
                    == old(self).payload_json)
                &&& (p.ds_author.len() > 0 ==> r is Post && final(self).payload_json@
                    == article_json_spec(p))
                &&& *final(self) == (ArticleRun {
                    url_mapping: final(self).url_mapping,
                    payload_json: final(self).payload_json,
                    ..*old(self)
                })
            }),
    {
        if !result.success {
            let mut rec = PartialArticleRecord::new_now();
            rec.wp_post_id = self.post.id;
            rec.title = self.post.title.clone();
            rec.cover_image_strapi_id = self.post.cover_image.id;
            rec.uploaded_images = result.url_mapping;
            rec.failed_image_urls = result.failed_image_urls;
            rec.failure_reason = result.failure_reason;
            rec.upload_attempts = 1;
            return ImagesStep::SavePartial(rec);
        }
        let rebuilt = ContentRebuilder::rebuild(self.blocks.as_slice(), &result.url_mapping);
        let payload = ArticleTransformer::transform(
            &self.post,
            rebuilt.as_str(),
            self.blocks.as_slice(),
            cache,
        );
        self.url_mapping = result.url_mapping;
        if payload.ds_author.as_str().is_empty() {
            return ImagesStep::MissingAuthor;
        }
        self.payload_json = article_json(&payload);
        ImagesStep::Post
    }

    fn failure(&self) -> (r: PostStep)
        requires
            self.attempts <= MAX_ARTICLE_RETRIES,
        ensures
            post_failed(r, self.last_status, self.last_error, self.last_body@, self.post, self.url_mapping@, self.attempts),
    {
        let mut reason: Vec<char> = chars_of("Article POST failed with HTTP ");
        let digits = u64_digits(self.last_status as u64);
        extend_chars(&mut reason, &digits);
        extend_str(&mut reason, ". ");
        match &self.last_error {
            Some(e) => extend_str(&mut reason, e.as_str()),
            None => {
                let t = truncate(self.last_body.as_str(), 200);
                extend_str(&mut reason, t.as_str());
            },
        }
        let reason = string_of(&reason);
        let partial = if self.url_mapping.len() > 0 {
            let mut rec = PartialArticleRecord::new_now();
            rec.wp_post_id = self.post.id;
            rec.title = self.post.title.clone();
            rec.cover_image_strapi_id = self.post.cover_image.id;
            rec.uploaded_images = self.url_mapping.clone();
            rec.failure_reason = reason.clone();
            rec.upload_attempts = 1;
            rec.article_creation_attempts = self.attempts as i32;
            Some(rec)
        } else {
            None
        };
        PostStep::Failed { reason, partial }
    }

    /// Takes the outcome of one POST of the article. A 2xx response posts it;
    /// any other outcome is retried after the backoff while the classified error
    /// is retryable and attempts remain, and otherwise fails the article.
    pub fn on_post_reply(&mut self, reply: ArticleReply) -> (r: PostStep)
        requires
            old(self).attempts < MAX_ARTICLE_RETRIES,
        ensures
            final(self).attempts == old(self).attempts + 1,
            final(self).post == old(self).post,
            final(self).url_mapping == old(self).url_mapping,
            final(self).payload_json == old(self).payload_json,
            final(self).next_comment == old(self).next_comment,
            final(self).succeeded_comments == old(self).succeeded_comments,
            final(self).failed_comments == old(self).failed_comments,
            final(self).blocks == old(self).blocks,
            match reply {
                ArticleReply::Response { status, body, created } => {
                    &&& final(self).last_status == status
                    &&& final(self).last_body == body
                    &&& final(self).last_error == old(self).last_error
                    &&& (200 <= status < 300 ==> r is Posted && final(self).document_id@
                        == document_id_spec(created))
                    &&& !(200 <= status < 300) ==> final(self).document_id == old(self).document_id
                        && match retry_decision_spec(
                        final(self).attempts,
                        MAX_ARTICLE_RETRIES,
                        classify_http_spec(status),
                    ) {
                        RetryDecision::WaitMs(ms) => r == PostStep::Retry(ms),
                        RetryDecision::GiveUp => r is Failed,
                        RetryDecision::WaitLongBackoff(_) => false,
                    }
                },
                ArticleReply::Failed { message, error_type } => {
                    &&& final(self).last_status == old(self).last_status
                    &&& final(self).last_body == old(self).last_body
                    &&& final(self).last_error == Some(message)
                    &&& final(self).document_id == old(self).document_id
                    &&& match retry_decision_spec(
                        final(self).attempts,
                        MAX_ARTICLE_RETRIES,
                        error_type,
                    ) {
                        RetryDecision::WaitMs(ms) => r == PostStep::Retry(ms),
                        RetryDecision::GiveUp => r is Failed,
                        RetryDecision::WaitLongBackoff(_) => false,
                    }
                },
            },
            r is Failed ==> post_failed(
                r,
                final(self).last_status,
                final(self).last_error,
                final(self).last_body@,
                old(self).post,
                old(self).url_mapping@,
                final(self).attempts,
            ),
    {
        self.attempts = self.attempts + 1;
        let attempt = self.attempts;
        let error_type = match reply {
            ArticleReply::Response { status, body, created } => {
                self.last_status = status;
                self.last_body = body;
                if 200 <= status && status < 300 {
                    self.document_id = match created {
                        Some((Some(d), _)) => d,
                        Some((None, Some(id))) => string_of(&int_text(id)),
                        _ => String::new(),
                    };
                    return PostStep::Posted;
                }
                ErrorClassifier::classify_http(status)
            },
            ArticleReply::Failed { message, error_type } => {
                self.last_error = Some(message);
                error_type
            },
        };
        match retry_decision(attempt, MAX_ARTICLE_RETRIES, error_type) {
            RetryDecision::WaitMs(ms) => PostStep::Retry(ms),
            RetryDecision::GiveUp | RetryDecision::WaitLongBackoff(_) => self.failure(),
        }
    }

    /// The body of the next comment to post, with its author mapped to a Strapi
    /// user; `None` once every comment has been handled.
    pub fn comment_request(&self, cache: &MappingCache) -> (r: Option<String>)
        ensures
            self.next_comment >= self.post.comments@.len() ==> r is None,
            self.next_comment < self.post.comments@.len() ==> ({
                let c = self.post.comments@[self.next_comment as int];
                r matches Some(body) && body@ == comment_json_spec(
                    normalize_title_spec(c.content@),
                    self.document_id@,
                    MappingCache::user_strapi_id_spec(cache.view(), c.author_id),
                    c.date@,
                )
            }),
    {
        if self.next_comment >= self.post.comments.len() {
            return None;
        }
        let c = &self.post.comments[self.next_comment];
        let text = ExcerptNormalizer::normalize_comment(c.content.as_str());
        let user_id = cache.get_user_strapi_id(c.author_id);
        Some(comment_json(text.as_str(), &self.document_id, user_id, c.date.as_str()))
    }

    /// Takes the outcome of posting the next comment: a 2xx response counts as
    /// posted, anything else keeps a failure record for a later retry.
    pub fn on_comment_reply(&mut self, reply: CommentReply)
        requires
            old(self).next_comment < old(self).post.comments@.len(),
            old(self).succeeded_comments <= old(self).next_comment,
        ensures
            final(self).next_comment == old(self).next_comment + 1,
            final(self).succeeded_comments <= final(self).next_comment,
            final(self).succeeded_comments + final(self).failed_comments@.len() == old(
                self,
            ).succeeded_comments + old(self).failed_comments@.len() + 1,
            comment_reply_ok(reply) ==> final(self).succeeded_comments == old(
                self,
            ).succeeded_comments + 1 && final(self).failed_comments == old(self).failed_comments,
            !comment_reply_ok(reply) ==> ({
                let c = old(self).post.comments@[old(self).next_comment as int];
                &&& final(self).succeeded_comments == old(self).succeeded_comments
                &&& final(self).failed_comments@.len() == old(self).failed_comments@.len() + 1
                &&& final(self).failed_comments@.drop_last() == old(self).failed_comments@
                &&& comment_failure_record(
                    final(self).failed_comments@.last(),
                    old(self).post.id,
                    c.id,
                    old(self).document_id,
                    normalize_title_spec(c.content@),
                    c.author_id,
                    c.date,
                    comment_failure_reason(reply),
                )
            }),
            *final(self) == (ArticleRun {
                next_comment: final(self).next_comment,
                succeeded_comments: final(self).succeeded_comments,
                failed_comments: final(self).failed_comments,
                ..*old(self)
            }),
    {
        let i = self.next_comment;
        let n = self.post.comments.len();
        assert(i < n);
        let ok = match &reply {
            CommentReply::Response { status, .. } => 200 <= *status && *status < 300,
            CommentReply::Failed { .. } => false,
        };
        if ok {
            self.succeeded_comments = self.succeeded_comments + 1;
        } else {
            let reason = match reply {
                CommentReply::Failed { message } => message,
                CommentReply::Response { status, body } => {
                    let mut v: Vec<char> = chars_of("HTTP ");
                    let d = u64_digits(status as u64);
                    extend_chars(&mut v, &d);
                    extend_str(&mut v, ": ");
                    let t = truncate(body.as_str(), 200);
                    extend_str(&mut v, t.as_str());
                    string_of(&v)
                },
            };
            let c = &self.post.comments[i];
            let mut rec = CommentFailureRecord::new_now();
            rec.wp_comment_id = c.id;
            rec.wp_post_id = self.post.id;
            rec.strapi_article_doc_id = self.document_id.clone();
            rec.comment_content = ExcerptNormalizer::normalize_comment(c.content.as_str());
            rec.author_id = c.author_id;
            rec.original_date = c.date.clone();
            rec.failure_reason = reason;
            rec.posting_attempts = 1;
            self.failed_comments.push(rec);
        }
        self.next_comment = i + 1;
    }
}

} // verus!
