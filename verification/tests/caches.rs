use std::collections::HashMap;

use migration_system::cache::{DocTable, FailedCommentsCache, IdTable, MappingCache, MappingType, PartialArticleCache, ProcessedPostTracker};
use migration_system::models::{CommentFailureRecord, PartialArticleRecord};
use migration_system::runner::{MigrationRunner, RunTally};
use migration_system::config::Config;

#[test]
fn mapping_type_names() {
    assert_eq!(MappingType::Performer.as_str(), "performer");
    assert_eq!(MappingType::parse("studio"), Some(MappingType::Studio));
    assert_eq!(MappingType::parse(MappingType::Performer.as_str()), Some(MappingType::Performer));
    assert_eq!(MappingType::parse("Studio"), None);
}

#[test]
fn performers_and_studios_share_ids() {
    let mut c = MappingCache::new();
    c.put_performer(1, "perf-doc".to_string());
    assert_eq!(c.get_performer_document_id(1), Some("perf-doc".to_string()));
    assert_eq!(c.get_studio_document_id(1), None);
    c.put_studio(1, "studio-doc".to_string());
    assert_eq!(c.get_performer_document_id(1), None);
    assert_eq!(c.get_studio_document_id(1), Some("studio-doc".to_string()));
}

#[test]
fn category_and_user_resolution() {
    let mut c = MappingCache::new();
    c.put_category(5, "cat".to_string());
    assert_eq!(c.get_category_document_id(5), "cat");
    c.put_sub_category(5, "sub".to_string());
    assert_eq!(c.get_category_document_id(5), "sub");
    assert_eq!(c.get_category_document_id(6), "");
    assert_eq!(c.get_user_strapi_id(1), MappingCache::FALLBACK_USER_ID);
    c.put_admin_user(1, 20);
    assert_eq!(c.get_user_strapi_id(1), 20);
    c.put_user(1, 30);
    assert_eq!(c.get_user_strapi_id(1), 30);
    assert_eq!(c.get_admin_user_strapi_id(1), Some(20));
    c.put_author_mapping(2, -4);
    assert_eq!(c.get_author_document_id(2), "-4");
    assert_eq!(c.get_author_document_id(3), "");
    c.put_image("IMG_1".to_string(), 7);
    c.put_image("IMG_1".to_string(), 8);
    assert_eq!(c.get_image_strapi_media_id("IMG_1"), Some(8));
    assert_eq!(c.image_entries().len(), 1);
}

#[test]
fn loading_persisted_tables() {
    let mut c = MappingCache::new();
    c.load_performers_studios(&vec![
        ("10".to_string(), Some((Some("d10".to_string()), Some("studio".to_string())))),
        ("11".to_string(), Some((None, Some("weird".to_string())))),
        ("x".to_string(), Some((Some("bad".to_string()), None))),
        ("12".to_string(), None),
    ]);
    assert_eq!(c.get_studio_document_id(10), Some("d10".to_string()));
    assert_eq!(c.get_performer_document_id(11), Some(String::new()));
    assert_eq!(c.get_performer_document_id(12), None);
    c.load_doc_table(DocTable::SubCategories, &vec![("3".to_string(), "s3".to_string()), ("no".to_string(), "z".to_string())]);
    assert_eq!(c.get_category_document_id(3), "s3");
    c.load_id_table(IdTable::Users, &vec![("4".to_string(), 44), ("+5".to_string(), 55)]);
    assert_eq!(c.get_user_strapi_id(5), 55);
    c.load_images(&vec![("IMG_2".to_string(), 2)]);
    assert_eq!(c.get_image_strapi_media_id("IMG_2"), Some(2));
}

fn comment(id: i64, post: i64, reason: &str) -> CommentFailureRecord {
    let mut r = CommentFailureRecord::new_now();
    r.wp_comment_id = id;
    r.wp_post_id = post;
    r.failure_reason = reason.to_string();
    r
}

#[test]
fn failed_comment_queue() {
    let mut q: Vec<CommentFailureRecord> = Vec::new();
    FailedCommentsCache::save(&mut q, &comment(1, 10, "a"));
    FailedCommentsCache::save(&mut q, &comment(2, 11, "b"));
    FailedCommentsCache::save(&mut q, &comment(1, 10, "c"));
    assert_eq!(q.len(), 2);
    assert_eq!(q[0].failure_reason, "c");
    let of10 = FailedCommentsCache::get_by_article(&q, 10);
    assert_eq!(of10.len(), 1);
    assert_eq!(of10[0].wp_comment_id, 1);
}

#[test]
fn partial_article_queue() {
    let mut m: HashMap<i64, PartialArticleRecord> = HashMap::new();
    let mut r = PartialArticleRecord::new_now();
    r.wp_post_id = 3;
    PartialArticleCache::save(&mut m, r);
    assert!(m.contains_key(&3));
    PartialArticleCache::remove(&mut m, 3);
    assert!(m.is_empty());
}

#[test]
fn tracker_and_runner() {
    let mut t = ProcessedPostTracker::from_ids(&vec![1, 2, 2]);
    assert_eq!(t.size(), 2);
    assert!(!MigrationRunner::should_migrate(&t, 1));
    assert!(MigrationRunner::should_migrate(&t, 3));
    let runner = MigrationRunner::new(Config::default());
    let mut tally = RunTally { success: 0, failure: 0 };
    assert!(runner.record_outcome(&mut tally, &mut t, 3, true));
    assert!(!MigrationRunner::should_migrate(&t, 3));
    assert!(!runner.record_outcome(&mut tally, &mut t, 4, false));
    assert_eq!(tally, RunTally { success: 1, failure: 1 });
    let dry = MigrationRunner::new(Config::default()).with_dry_run(true);
    assert!(!dry.record_outcome(&mut tally, &mut t, 5, true));
    assert!(MigrationRunner::should_migrate(&t, 5));
    let before = t.size();
    assert!(t.mark_processed(9));
    assert_eq!(t.size(), before + 1);
    assert!(!t.mark_processed(9));
    assert_eq!(t.size(), before + 1);
}

#[test]
fn runner_limits_posts() {
    let r = MigrationRunner::new(Config::default()).with_max_articles(2).with_wp_per_page(10);
    assert_eq!(r.wp_per_page, 10);
    let mut posts = vec![Default::default(), Default::default(), Default::default()];
    r.limit_posts(&mut posts);
    assert_eq!(posts.len(), 2);
    let unlimited = MigrationRunner::new(Config::default());
    let mut posts2: Vec<migration_system::models::WpPost> = vec![Default::default(); 3];
    unlimited.limit_posts(&mut posts2);
    assert_eq!(posts2.len(), 3);
}
