use migration_system::config::Config;
use migration_system::wp::{PageStep, RawWpComment, RawWpMedia, RawWpPost, WpClient};

fn client(base: &str) -> WpClient {
    let mut cfg = Config::default();
    cfg.wp_base_url = base.to_string();
    WpClient::new(cfg)
}

fn raw() -> RawWpPost {
    RawWpPost {
        id: Some(42),
        modified: Some("2024-05-05T05:05:05".to_string()),
        slug: Some("hello".to_string()),
        title: Some("<b>Hello</b> &#8211; World".to_string()),
        content: Some("<p>Body</p>".to_string()),
        excerpt: Some("<p>Short</p>".to_string()),
        categories: Some(vec![None, Some(3)]),
        author: Some(8),
        comment_status: Some("open".to_string()),
        tags: Some(vec![Some(1), None, Some(2)]),
        featured_media: Some(vec![RawWpMedia { source_url: Some("https://wp/c.jpg".to_string()), alt_text: Some(String::new()), slug: Some("cover-slug".to_string()) }]),
        replies: Some(vec![Some(vec![RawWpComment {
            id: Some(5),
            date: Some("2024-05-06".to_string()),
            content: Some("<p>Nice &#33;</p>".to_string()),
            avatar_96: None,
            author: Some(12),
        }])]),
    }
}

#[test]
fn posts_url() {
    let c = client("https://example.com///");
    assert_eq!(c.build_posts_url(50, 2, false), "https://example.com/wp-json/wp/v2/posts?per_page=50&page=2");
    assert_eq!(
        c.build_posts_url(100, 1, true),
        "https://example.com/wp-json/wp/v2/posts?per_page=100&page=1&_embed=wp:featuredmedia,replies"
    );
    assert_eq!(WpClient::single_page_size(500), 100);
    assert_eq!(WpClient::single_page_size(20), 20);
}

#[test]
fn urls_by_id_in_groups_of_100() {
    let c = client("https://example.com/");
    let ids: Vec<i64> = (1..=205).collect();
    let urls = c.ids_urls(&ids, false);
    assert_eq!(urls.len(), 3);
    assert!(urls[0].starts_with("https://example.com/wp-json/wp/v2/posts?include=1,2,3,"));
    assert!(urls[0].ends_with(",100&per_page=100"));
    assert_eq!(urls[2], "https://example.com/wp-json/wp/v2/posts?include=201,202,203,204,205&per_page=100");
    assert!(c.ids_urls(&[], true).is_empty());
    assert_eq!(c.ids_urls(&[7], true), vec!["https://example.com/wp-json/wp/v2/posts?include=7&per_page=100&_embed=wp:featuredmedia,replies".to_string()]);
}

#[test]
fn paging_decisions() {
    assert_eq!(WpClient::after_page(150, 1, 100, 100), PageStep::Fetch(2));
    assert_eq!(WpClient::after_page(150, 2, 100, 200), PageStep::Stop(150));
    assert_eq!(WpClient::after_page(150, 2, 30, 130), PageStep::Stop(130));
}

#[test]
fn parse_post_fields() {
    let p = WpClient::parse_post(&raw()).unwrap();
    assert_eq!(p.id, 42);
    assert_eq!(p.date, "2024-05-05T05:05:05");
    assert_eq!(p.slug, "hello");
    assert_eq!(p.title, "Hello \u{2013} World");
    assert_eq!(p.content, "<p>Body</p>");
    assert_eq!(p.excerpt, "Short");
    assert_eq!(p.categories, 0);
    assert_eq!(p.author_id, 8);
    assert!(p.comments_enabled);
    assert_eq!(p.tag_ids, vec![1, 2]);
    assert_eq!(p.cover_image.id, 0);
    assert_eq!(p.cover_image.source_url, "https://wp/c.jpg");
    assert_eq!(p.cover_image.alt_text, "cover-slug");
    assert_eq!(p.comments.len(), 1);
    assert_eq!(p.comments[0].id, 5);
    assert_eq!(p.comments[0].content, "Nice !");
    assert_eq!(p.comments[0].author_id, 12);
    assert_eq!(p.comments[0].avatar_url, "");
}

#[test]
fn parse_post_requires_id_and_defaults() {
    let mut r = raw();
    r.id = None;
    assert!(WpClient::parse_post(&r).is_none());
    let bare = RawWpPost {
        id: Some(1),
        modified: None,
        slug: None,
        title: None,
        content: None,
        excerpt: None,
        categories: Some(vec![Some(9)]),
        author: None,
        comment_status: Some("closed".to_string()),
        tags: None,
        featured_media: Some(vec![]),
        replies: Some(vec![None]),
    };
    let p = WpClient::parse_post(&bare).unwrap();
    assert_eq!(p.categories, 9);
    assert_eq!(p.title, "");
    assert!(!p.comments_enabled);
    assert!(p.comments.is_empty());
    assert_eq!(p.cover_image.source_url, "");
}
