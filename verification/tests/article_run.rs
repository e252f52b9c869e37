use std::collections::HashMap;

use migration_system::cache::MappingCache;
use migration_system::error::ErrorType;
use migration_system::models::{CoverImage, ImageProcessingResult, WpComment, WpPost};
use migration_system::orchestrator::{ArticleReply, ArticleRun, CommentReply, ImagesStep, PostStep};

fn post() -> WpPost {
    WpPost {
        id: 77,
        date: "2024-03-01T10:00:00".to_string(),
        slug: "My Post".to_string(),
        title: "My Post".to_string(),
        content: "<p>Hi</p><img src=\"https://wp.example/a.png\" alt=\"a\">".to_string(),
        excerpt: "Ex".to_string(),
        categories: 5,
        cover_image: CoverImage { id: 0, source_url: "https://wp.example/c.jpg".to_string(), alt_text: "cover".to_string() },
        comments: vec![
            WpComment { id: 1, date: "d1".to_string(), content: "<p>first</p>".to_string(), avatar_url: String::new(), author_id: 10 },
            WpComment { id: 2, date: "d2".to_string(), content: "second".to_string(), avatar_url: String::new(), author_id: 11 },
        ],
        author_id: 4,
        tag_ids: vec![],
        comments_enabled: true,
    }
}

fn images_ok() -> ImageProcessingResult {
    let mut m = HashMap::new();
    m.insert(1, "https://cdn.example/a.png".to_string());
    ImageProcessingResult {
        success: true,
        total_image_blocks_required: 1,
        successfully_processed_count: 1,
        url_mapping: m,
        failed_image_urls: vec![],
        failure_reason: String::new(),
    }
}

fn cache_with_author() -> MappingCache {
    let mut c = MappingCache::new();
    c.put_author_mapping(4, 40);
    c.put_user(10, 100);
    c
}

#[test]
fn full_article_flow() {
    let cache = cache_with_author();
    let mut run = ArticleRun::start(post());
    assert_eq!(run.blocks.len(), 2);
    assert_eq!(run.cover_request(), Some("https://wp.example/c.jpg".to_string()));
    run.on_cover(Some(55));
    assert_eq!(run.post.cover_image.id, 55);
    assert_eq!(run.image_positions(), Some(vec![1]));
    match run.on_images(images_ok(), &cache) {
        ImagesStep::Post => {}
        other => panic!("unexpected {:?}", other),
    }
    assert!(run.payload_json.contains("\"Body\":\"<p>Hi</p><p><img src=\\\"https://cdn.example/a.png\\\" alt=\\\"a\\\"/></p>\""));
    assert!(run.payload_json.contains("\"ds_author\":{\"connect\":[\"40\"]}"));
    assert!(run.payload_json.contains("\"Cover_Image\":{\"AltTag\":\"cover\",\"Public\":55}"));
    assert!(run.payload_json.contains("\"Slug\":\"My-Post\""));
    // A server error is retried after the first backoff.
    let step = run.on_post_reply(ArticleReply::Response { status: 502, body: "bad gateway".to_string(), created: None });
    assert!(matches!(step, PostStep::Retry(1000)));
    let step = run.on_post_reply(ArticleReply::Response {
        status: 201,
        body: "{}".to_string(),
        created: Some((Some("doc-1".to_string()), Some(9))),
    });
    assert!(matches!(step, PostStep::Posted));
    assert_eq!(run.document_id, "doc-1");
    assert_eq!(run.attempts, 2);
    // Comments.
    let body = run.comment_request(&cache).unwrap();
    assert_eq!(body, "{\"data\":{\"Comment\":\"first\",\"articleId\":{\"connect\":[\"doc-1\"]},\"commentedAt\":\"d1\",\"userId\":100}}");
    run.on_comment_reply(CommentReply::Response { status: 200, body: String::new() });
    let body = run.comment_request(&cache).unwrap();
    assert!(body.contains("\"userId\":3"));
    run.on_comment_reply(CommentReply::Response { status: 400, body: "nope".to_string() });
    assert_eq!(run.comment_request(&cache), None);
    assert_eq!(run.succeeded_comments, 1);
    assert_eq!(run.failed_comments.len(), 1);
    let rec = &run.failed_comments[0];
    assert_eq!(rec.wp_comment_id, 2);
    assert_eq!(rec.wp_post_id, 77);
    assert_eq!(rec.strapi_article_doc_id, "doc-1");
    assert_eq!(rec.comment_content, "second");
    assert_eq!(rec.failure_reason, "HTTP 400: nope");
    assert_eq!(rec.posting_attempts, 1);
}

#[test]
fn numeric_id_when_no_document_id() {
    let cache = cache_with_author();
    let mut run = ArticleRun::start(post());
    run.on_images(images_ok(), &cache);
    let step = run.on_post_reply(ArticleReply::Response { status: 200, body: String::new(), created: Some((None, Some(12))) });
    assert!(matches!(step, PostStep::Posted));
    assert_eq!(run.document_id, "12");
}

#[test]
fn failed_cover_is_minus_one() {
    let mut run = ArticleRun::start(post());
    run.on_cover(None);
    assert_eq!(run.post.cover_image.id, -1);
}

#[test]
fn empty_body_fails() {
    let mut p = post();
    p.content = String::new();
    let run = ArticleRun::start(p);
    assert_eq!(run.image_positions(), None);
}

#[test]
fn image_failure_saves_partial() {
    let cache = cache_with_author();
    let mut run = ArticleRun::start(post());
    run.on_cover(Some(8));
    let r = ImageProcessingResult {
        success: false,
        total_image_blocks_required: 1,
        successfully_processed_count: 0,
        url_mapping: HashMap::new(),
        failed_image_urls: vec!["https://wp.example/a.png".to_string()],
        failure_reason: "Failed to download 1 of 1 images".to_string(),
    };
    match run.on_images(r, &cache) {
        ImagesStep::SavePartial(rec) => {
            assert_eq!(rec.wp_post_id, 77);
            assert_eq!(rec.title, "My Post");
            assert_eq!(rec.cover_image_strapi_id, 8);
            assert_eq!(rec.failed_image_urls, vec!["https://wp.example/a.png".to_string()]);
            assert_eq!(rec.failure_reason, "Failed to download 1 of 1 images");
            assert_eq!(rec.upload_attempts, 1);
        }
        other => panic!("unexpected {:?}", other),
    }
}

#[test]
fn missing_author_stops() {
    let cache = MappingCache::new();
    let mut run = ArticleRun::start(post());
    assert!(matches!(run.on_images(images_ok(), &cache), ImagesStep::MissingAuthor));
}

#[test]
fn non_retryable_failure_gives_up_with_partial() {
    let cache = cache_with_author();
    let mut run = ArticleRun::start(post());
    run.on_images(images_ok(), &cache);
    let step = run.on_post_reply(ArticleReply::Response { status: 400, body: "x".repeat(300), created: None });
    match step {
        PostStep::Failed { reason, partial } => {
            assert_eq!(reason, format!("Article POST failed with HTTP 400. {}", "x".repeat(200)));
            let rec = partial.unwrap();
            assert_eq!(rec.article_creation_attempts, 1);
            assert_eq!(rec.uploaded_images.get(&1), Some(&"https://cdn.example/a.png".to_string()));
            assert_eq!(rec.failure_reason, reason);
        }
        other => panic!("unexpected {:?}", other),
    }
}

#[test]
fn transport_errors_exhaust_attempts() {
    let cache = cache_with_author();
    let mut run = ArticleRun::start(post());
    run.on_images(images_ok(), &cache);
    let e = || ArticleReply::Failed { message: "timeout".to_string(), error_type: ErrorType::NetworkTimeout };
    assert!(matches!(run.on_post_reply(e()), PostStep::Retry(1000)));
    assert!(matches!(run.on_post_reply(e()), PostStep::Retry(1500)));
    match run.on_post_reply(e()) {
        PostStep::Failed { reason, .. } => assert_eq!(reason, "Article POST failed with HTTP 0. timeout"),
        other => panic!("unexpected {:?}", other),
    }
    assert_eq!(run.attempts, 3);
}
