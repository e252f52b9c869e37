//! Data records exchanged between the WordPress reader, the content pipeline,
//! the caches and the Strapi writer.
use std::collections::HashMap;

use vstd::prelude::*;

verus! {

#[derive(Debug, Clone, Default)]
pub struct CategoryMapping {
    pub name: String,
    pub slug: String,
    pub access_level: String,
    pub document_id: String,
}

#[derive(Debug, Clone, Default)]
pub struct SubCategoryItem {
    pub wp_id: i64,
    pub name: String,
    pub slug: String,
    pub access_level: String,
}

#[derive(Debug, Clone, Default)]
pub struct ParentCategoryGroup {
    pub name: String,
    pub slug: String,
    pub access_level: String,
    pub sub_categories: Vec<SubCategoryItem>,
    pub document_id: String,
}

#[derive(Debug, Clone, Copy, PartialEq, Eq, Structural)]
pub enum BlockType {
    Html,
    Image,
    Cta,
}

/// One top-level piece of an article body: verbatim HTML, an image, or a
/// call-to-action button.
#[derive(Debug, Clone)]
pub struct ContentBlock {
    pub block_type: BlockType,
    pub index: i32,
    pub raw_html: String,
    pub src: String,
    pub srcset: Vec<String>,
    pub alt: String,
    pub href: String,
    pub text: String,
}

/// Abstract contents of a `ContentBlock`.
pub struct BlockView {
    pub block_type: BlockType,
    pub index: i32,
    pub raw_html: Seq<char>,
    pub src: Seq<char>,
    pub srcset: Seq<Seq<char>>,
    pub alt: Seq<char>,
    pub href: Seq<char>,
    pub text: Seq<char>,
}

pub open spec fn string_views(v: Seq<String>) -> Seq<Seq<char>> {
    v.map_values(|s: String| s@)
}

pub open spec fn block_view(b: ContentBlock) -> BlockView {
    BlockView {
        block_type: b.block_type,
        index: b.index,
        raw_html: b.raw_html@,
        src: b.src@,
        srcset: string_views(b.srcset@),
        alt: b.alt@,
        href: b.href@,
        text: b.text@,
    }
}

/// View of a block of type `t` at `idx` whose text fields are all empty.
pub open spec fn blank_view(t: BlockType, idx: i32) -> BlockView {
    BlockView {
        block_type: t,
        index: idx,
        raw_html: Seq::empty(),
        src: Seq::empty(),
        srcset: Seq::empty(),
        alt: Seq::empty(),
        href: Seq::empty(),
        text: Seq::empty(),
    }
}

pub open spec fn block_views(s: Seq<ContentBlock>) -> Seq<BlockView> {
    s.map_values(|b: ContentBlock| block_view(b))
}

pub open spec fn block_fields_empty(b: ContentBlock) -> bool {
    &&& b.raw_html@.len() == 0
    &&& b.src@.len() == 0
    &&& b.srcset@.len() == 0
    &&& b.alt@.len() == 0
    &&& b.href@.len() == 0
    &&& b.text@.len() == 0
}

impl Default for ContentBlock {
    fn default() -> (r: Self)
        ensures
            r.block_type == BlockType::Html,
            r.index == 0,
            block_fields_empty(r),
    {
        ContentBlock {
            block_type: BlockType::Html,
            index: 0,
            raw_html: String::new(),
            src: String::new(),
            srcset: Vec::new(),
            alt: String::new(),
            href: String::new(),
            text: String::new(),
        }
    }
}

impl ContentBlock {
    /// A block of type `block_type` at `index` with all text fields empty.
    pub fn blank(block_type: BlockType, index: i32) -> (r: Self)
        ensures
            r.block_type == block_type,
            r.index == index,
            block_fields_empty(r),
            block_view(r) == blank_view(block_type, index),
    {
        let r = ContentBlock {
            block_type,
            index,
            raw_html: String::new(),
            src: String::new(),
            srcset: Vec::new(),
            alt: String::new(),
            href: String::new(),
            text: String::new(),
        };
        assert(string_views(r.srcset@) =~= Seq::<Seq<char>>::empty());
        r
    }

    pub fn is_image(&self) -> (r: bool)
        ensures
            r == (self.block_type == BlockType::Image),
    {
        self.block_type == BlockType::Image
    }

    pub fn is_cta(&self) -> (r: bool)
        ensures
            r == (self.block_type == BlockType::Cta),
    {
        self.block_type == BlockType::Cta
    }

    pub fn is_html(&self) -> (r: bool)
        ensures
            r == (self.block_type == BlockType::Html),
    {
        self.block_type == BlockType::Html
    }
}

#[derive(Debug, Clone, Default)]
pub struct CtaBlock {
    pub url: String,
    pub content: String,
    pub index: i32,
}

#[derive(Debug, Clone, Default)]
pub struct DsCategory {
    pub wp_id: i64,
    pub name: String,
    pub slug: String,
    pub access_level: String,
}

#[derive(Debug, Clone, Default)]
pub struct DsPerformer {
    pub id: i64,
    pub name: String,
    pub slug: String,
}

#[derive(Debug, Clone, Default)]
pub struct DsStudio {
    pub id: i64,
    pub name: String,
    pub slug: String,
}

#[derive(Debug, Clone, Default)]
pub struct DsSubCategory {
    pub wp_id: i64,
    pub parent_wp_id: i64,
    pub name: String,
    pub slug: String,
    pub access_level: String,
    pub parent_name: String,
}

/// Seconds since the Unix epoch (`chrono::Utc::now().timestamp()`). It depends
/// on the clock, so nothing is stated of it.
#[verifier::external_body]
pub fn now_unix() -> (r: i64) {
    chrono::Utc::now().timestamp()
}

/// A comment that could not be posted, kept for a later retry.
#[derive(Debug)]
pub struct CommentFailureRecord {
    pub wp_comment_id: i64,
    pub wp_post_id: i64,
    pub strapi_article_doc_id: String,
    pub comment_content: String,
    pub author_id: i64,
    pub original_date: String,
    pub failure_reason: String,
    pub posting_attempts: i32,
    pub created_at_unix: i64,
    pub updated_at_unix: i64,
}

pub open spec fn comment_record_blank(r: CommentFailureRecord) -> bool {
    &&& r.wp_comment_id == 0
    &&& r.wp_post_id == 0
    &&& r.strapi_article_doc_id@.len() == 0
    &&& r.comment_content@.len() == 0
    &&& r.author_id == 0
    &&& r.original_date@.len() == 0
    &&& r.failure_reason@.len() == 0
    &&& r.posting_attempts == 0
}

impl Default for CommentFailureRecord {
    fn default() -> (r: Self)
        ensures
            comment_record_blank(r),
            r.created_at_unix == 0,
            r.updated_at_unix == 0,
    {
        CommentFailureRecord {
            wp_comment_id: 0,
            wp_post_id: 0,
            strapi_article_doc_id: String::new(),
            comment_content: String::new(),
            author_id: 0,
            original_date: String::new(),
            failure_reason: String::new(),
            posting_attempts: 0,
            created_at_unix: 0,
            updated_at_unix: 0,
        }
    }
}

impl Clone for CommentFailureRecord {
    fn clone(&self) -> (r: Self)
        ensures
            r == *self,
    {
        CommentFailureRecord {
            wp_comment_id: self.wp_comment_id,
            wp_post_id: self.wp_post_id,
            strapi_article_doc_id: self.strapi_article_doc_id.clone(),
            comment_content: self.comment_content.clone(),
            author_id: self.author_id,
            original_date: self.original_date.clone(),
            failure_reason: self.failure_reason.clone(),
            posting_attempts: self.posting_attempts,
            created_at_unix: self.created_at_unix,
            updated_at_unix: self.updated_at_unix,
        }
    }
}

impl CommentFailureRecord {
    /// A blank record stamped with the current time as both creation and update time.
    pub fn new_now() -> (r: Self)
        ensures
            comment_record_blank(r),
            r.created_at_unix == r.updated_at_unix,
    {
        let ts = now_unix();
        let mut r = Self::default();
        r.created_at_unix = ts;
        r.updated_at_unix = ts;
        r
    }
}

/// An article whose migration stopped part-way, kept for a later retry.
#[derive(Debug, Clone)]
pub struct PartialArticleRecord {
    pub wp_post_id: i64,
    pub strapi_article_doc_id: String,
    pub title: String,
    pub cover_image_strapi_id: i64,
    /// Block index -> uploaded Strapi URL (persisted with the index in decimal).
    pub uploaded_images: HashMap<i32, String>,
    pub failed_image_urls: Vec<String>,
    pub failure_reason: String,
    pub upload_attempts: i32,
    pub article_creation_attempts: i32,
    pub created_at_unix: i64,
    pub updated_at_unix: i64,
}

pub open spec fn partial_record_blank(r: PartialArticleRecord) -> bool {
    &&& r.wp_post_id == 0
    &&& r.strapi_article_doc_id@.len() == 0
    &&& r.title@.len() == 0
    &&& r.cover_image_strapi_id == 0
    &&& r.uploaded_images@.len() == 0
    &&& r.failed_image_urls@.len() == 0
    &&& r.failure_reason@.len() == 0
    &&& r.upload_attempts == 0
    &&& r.article_creation_attempts == 0
}

impl Default for PartialArticleRecord {
    fn default() -> (r: Self)
        ensures
            partial_record_blank(r),
            r.created_at_unix == 0,
            r.updated_at_unix == 0,
    {
        PartialArticleRecord {
            wp_post_id: 0,
            strapi_article_doc_id: String::new(),
            title: String::new(),
            cover_image_strapi_id: 0,
            uploaded_images: HashMap::new(),
            failed_image_urls: Vec::new(),
            failure_reason: String::new(),
            upload_attempts: 0,
            article_creation_attempts: 0,
            created_at_unix: 0,
            updated_at_unix: 0,
        }
    }
}

impl PartialArticleRecord {
    /// A blank record stamped with the current time as both creation and update time.
    pub fn new_now() -> (r: Self)
        ensures
            partial_record_blank(r),
            r.created_at_unix == r.updated_at_unix,
    {
        let ts = now_unix();
        let mut r = Self::default();
        r.created_at_unix = ts;
        r.updated_at_unix = ts;
        r
    }

    /// Stamps the update time with the current time; nothing else changes.
    pub fn touch(&mut self)
        ensures
            *final(self) == (PartialArticleRecord {
                updated_at_unix: final(self).updated_at_unix,
                ..*old(self)
            }),
    {
        self.updated_at_unix = now_unix();
    }
}

/// Outcome of relocating the images of one article.
#[derive(Debug, Clone)]
pub struct ImageProcessingResult {
    pub success: bool,
    pub total_image_blocks_required: i32,
    pub successfully_processed_count: i32,
    pub url_mapping: HashMap<i32, String>,
    pub failed_image_urls: Vec<String>,
    pub failure_reason: String,
}

#[derive(Debug, Clone)]
pub struct CoverImagePayload {
    pub public: Option<i64>,
    pub alt_tag: String,
}

#[derive(Debug, Clone)]
pub struct RegistrationCtaBlock {
    pub enabled: bool,
    pub position_after_paragraph: i32,
    pub label: String,
    pub url: String,
}

/// The article as it is posted to Strapi.
#[derive(Debug, Clone)]
pub struct StrapiArticlePayload {
    pub site: String,
    pub title: String,
    pub slug: String,
    pub excerpt: String,
    pub publish_date: String,
    pub body: String,
    pub ds_performers: Vec<String>,
    pub ds_studios: Vec<String>,
    pub cover_image: CoverImagePayload,
    pub ds_author: String,
    pub ds_sub_category: String,
    pub allow_comment: bool,
    pub registration_cta_block: Vec<RegistrationCtaBlock>,
}

/// The site every migrated article belongs to.
pub open spec fn site_name() -> Seq<char> {
    "Daily_Squirt"@
}

impl Default for StrapiArticlePayload {
    fn default() -> (r: Self)
        ensures
            r.site@ == site_name(),
            r.title@.len() == 0,
            r.slug@.len() == 0,
            r.excerpt@.len() == 0,
            r.publish_date@.len() == 0,
            r.body@.len() == 0,
            r.ds_performers@.len() == 0,
            r.ds_studios@.len() == 0,
            r.cover_image.public is None,
            r.cover_image.alt_tag@.len() == 0,
            r.ds_author@.len() == 0,
            r.ds_sub_category@.len() == 0,
            !r.allow_comment,
            r.registration_cta_block@.len() == 0,
    {
        StrapiArticlePayload {
            site: "Daily_Squirt".to_owned(),
            title: String::new(),
            slug: String::new(),
            excerpt: String::new(),
            publish_date: String::new(),
            body: String::new(),
            ds_performers: Vec::new(),
            ds_studios: Vec::new(),
            cover_image: CoverImagePayload { public: None, alt_tag: String::new() },
            ds_author: String::new(),
            ds_sub_category: String::new(),
            allow_comment: false,
            registration_cta_block: Vec::new(),
        }
    }
}

#[derive(Debug, Clone, Default)]
pub struct WpComment {
    pub id: i64,
    pub date: String,
    pub content: String,
    pub avatar_url: String,
    pub author_id: i64,
}

#[derive(Debug, Clone, Default)]
pub struct CoverImage {
    pub id: i64,
    pub source_url: String,
    pub alt_text: String,
}

#[derive(Debug, Clone, Default)]
pub struct WpPost {
    pub id: i64,
    pub date: String,
    pub slug: String,
    pub title: String,
    pub content: String,
    pub excerpt: String,
    pub categories: i64,
    pub cover_image: CoverImage,
    pub comments: Vec<WpComment>,
    pub author_id: i64,
    pub tag_ids: Vec<i64>,
    pub comments_enabled: bool,
}

} // verus!
