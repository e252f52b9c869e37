use migration_system::cache::MappingCache;
use migration_system::cli::{Cli, Phase};
use migration_system::config::{d_admin_batch, d_user_batch, f, t, Config, PreMigrationConfig};
use migration_system::http::{split_header_line, HttpResponse};
use migration_system::models::{DsPerformer, DsStudio, SubCategoryItem};
use migration_system::pre_migration::{
    category_groups, performers_from_csv, performers_from_records, studios_from_csv,
    studios_from_records, PreMigrationStats,
    RawCategoryGroup, RawSubCategory, SlugMemo,
};

fn rec(fields: &[&str]) -> Vec<String> {
    fields.iter().map(|s| s.to_string()).collect()
}

#[test]
fn csv_records() {
    let records = vec![
        rec(&[" 12 ", " Jane Doe ", " jane-doe "]),
        rec(&["0", "Zero", "z"]),
        rec(&["x", "Bad", "b"]),
        rec(&["13", "  ", "blank"]),
        rec(&["14", "Only Name"]),
    ];
    let p = performers_from_records(&records);
    assert_eq!(p.len(), 2);
    assert_eq!((p[0].id, p[0].name.as_str(), p[0].slug.as_str()), (12, "Jane Doe", "jane-doe"));
    assert_eq!((p[1].id, p[1].name.as_str(), p[1].slug.as_str()), (14, "Only Name", ""));
    let s = studios_from_records(&records);
    assert_eq!(s.len(), 2);
}

#[test]
fn category_groups_defaults() {
    let raw = vec![RawCategoryGroup {
        name: Some("Parent".to_string()),
        slug: None,
        access_level: None,
        sub_categories: Some(vec![RawSubCategory { wp_id: Some(5), name: Some("Child".to_string()), slug: Some("child".to_string()), access_level: Some("Premium".to_string()) }, RawSubCategory { wp_id: None, name: None, slug: None, access_level: None }]),
    }];
    let g = category_groups(&raw);
    assert_eq!(g[0].name, "Parent");
    assert_eq!(g[0].slug, "");
    assert_eq!(g[0].access_level, "Public");
    assert_eq!(g[0].document_id, "");
    assert_eq!(g[0].sub_categories.len(), 2);
    assert_eq!(g[0].sub_categories[0].access_level, "Premium");
    assert_eq!(g[0].sub_categories[1].wp_id, 0);
    assert_eq!(g[0].sub_categories[1].access_level, "Public");
}

#[test]
fn taxonomy_bookkeeping() {
    let mut cache = MappingCache::new();
    let mut stats = PreMigrationStats::new();
    stats.on_performer(&mut cache, &DsPerformer { id: 1, name: "a".to_string(), slug: "a".to_string() }, Some("pd".to_string()));
    stats.on_performer(&mut cache, &DsPerformer { id: 2, name: "b".to_string(), slug: "b".to_string() }, None);
    stats.on_studio(&mut cache, &DsStudio { id: 3, name: "c".to_string(), slug: "c".to_string() }, Some("sd".to_string()));
    assert_eq!((stats.performers_created, stats.performers_failed, stats.studios_created), (1, 1, 1));
    assert_eq!(cache.get_performer_document_id(1), Some("pd".to_string()));
    assert_eq!(cache.get_studio_document_id(3), Some("sd".to_string()));

    let raw = vec![RawCategoryGroup { name: Some("P".to_string()), slug: Some("p".to_string()), access_level: None, sub_categories: None }];
    let mut groups = category_groups(&raw);
    let cfg = PreMigrationConfig::default();
    assert!(!PreMigrationStats::wants_sub_categories(&cfg, &groups[0]));
    stats.on_category(&mut cache, &mut groups[0], Some("cat-doc".to_string()));
    assert_eq!(groups[0].document_id, "cat-doc");
    assert_eq!(cache.get_category_document_id(0), "cat-doc");
    assert!(PreMigrationStats::wants_sub_categories(&cfg, &groups[0]));

    let mut memo = SlugMemo::new();
    let sub = |id: i64, slug: &str| SubCategoryItem { wp_id: id, name: slug.to_string(), slug: slug.to_string(), access_level: "Public".to_string() };
    assert_eq!(memo.lookup("x"), None);
    stats.on_sub_category(&mut cache, &mut memo, &sub(10, "x"), Some("sx".to_string()));
    let again = memo.lookup("x").unwrap();
    assert_eq!(again, "sx");
    stats.reuse_sub_category(&mut cache, &sub(11, "x"), again);
    stats.on_sub_category(&mut cache, &mut memo, &sub(12, "y"), None);
    assert_eq!((stats.sub_categories_created, stats.sub_categories_failed), (2, 1));
    assert_eq!(cache.get_category_document_id(11), "sx");
    stats.finish();
    assert!(stats.completed);
    assert_eq!(stats.completion_message, "Pre-migration completed successfully");
    let d = PreMigrationStats::disabled();
    assert!(d.completed);
    assert_eq!(d.completion_message, "Pre-migration disabled");
}

#[test]
fn configuration_defaults_and_overrides() {
    let c = PreMigrationConfig::default();
    assert!(c.enabled && !c.migrate_performers && !c.migrate_studios && c.migrate_categories);
    assert_eq!((c.admin_user_batch_size, c.user_batch_size), (100, 1000));
    assert!(t() && !f());
    assert_eq!((d_admin_batch(), d_user_batch()), (100, 1000));
    let mut base = Config::default();
    base.wp_base_url = "file".to_string();
    let o = base.with_env_overrides(None, Some("env".to_string()), None);
    assert_eq!(o.wp_base_url, "file");
    assert_eq!(o.strapi_base_url, "env");
}

#[test]
fn phase_selection() {
    let mut cli = Cli {
        config: String::new(),
        pre_config: String::new(),
        only_phase: Phase::All,
        max_articles: 0,
        dry_run: false,
        wp_per_page: 50,
    };
    assert!(cli.should_run(Phase::Users));
    cli.only_phase = Phase::Authors;
    assert!(cli.should_run(Phase::Authors));
    assert!(!cli.should_run(Phase::Users));
}

#[test]
fn http_helpers() {
    assert!(HttpResponse { status_code: 204, body: String::new() }.is_success());
    assert!(!HttpResponse { status_code: 301, body: String::new() }.is_success());
    assert_eq!(split_header_line("Content-Type:  text/html "), Some(("Content-Type".to_string(), "text/html".to_string())));
    assert_eq!(split_header_line("nocolon"), None);
}

#[test]
fn csv_bytes_are_parsed_then_filtered() {
    let data = b"id,name,slug\n12, Jane Doe ,jane-doe\n0,Zero,z\n\"15\",\"Smith, J\",smith-j\n";
    let p = performers_from_csv(data).unwrap();
    assert_eq!(p.len(), 2);
    assert_eq!((p[0].id, p[0].name.as_str(), p[0].slug.as_str()), (12, "Jane Doe", "jane-doe"));
    assert_eq!((p[1].id, p[1].name.as_str(), p[1].slug.as_str()), (15, "Smith, J", "smith-j"));
    let s = studios_from_csv(b"id,Studio,Slug\n7,Acme,acme\n").unwrap();
    assert_eq!((s[0].id, s[0].name.as_str(), s[0].slug.as_str()), (7, "Acme", "acme"));
    // Only a header: no records.
    assert!(performers_from_csv(b"id,name,slug\n").unwrap().is_empty());
    // A record with a different number of fields is a read error.
    assert!(performers_from_csv(b"id,name,slug\n1,a,b\n2,c\n").is_none());
    assert!(studios_from_csv(b"id,Studio,Slug\n1,a,b,extra\n").is_none());
}
