use migration_system::json::quote;
use migration_system::orchestrator::{article_json, comment_json};
use migration_system::models::{CoverImagePayload, RegistrationCtaBlock, StrapiArticlePayload};
use migration_system::text::{i64_decimal, parse_i64, parse_u32, truncate};

fn s(v: &[char]) -> String {
    v.iter().collect()
}

fn chars(t: &str) -> Vec<char> {
    t.chars().collect()
}

#[test]
fn truncate_keeps_short_text() {
    assert_eq!(truncate("short", 200), "short");
}

#[test]
fn truncate_cuts_to_characters() {
    assert_eq!(truncate("abcdef", 3), "abc");
    // 4 chars of 2 bytes: 8 bytes > 5, so the first 5 characters (all 4) are kept.
    assert_eq!(truncate("éééé", 5), "éééé");
    assert_eq!(truncate("éééé", 3), "ééé");
}

#[test]
fn decimal_round_trip() {
    assert_eq!(s(&i64_decimal(-42)), "-42");
    assert_eq!(s(&i64_decimal(i64::MIN)), "-9223372036854775808");
    assert_eq!(parse_i64(&chars("+17")), Some(17));
    assert_eq!(parse_i64(&chars("-9223372036854775808")), Some(i64::MIN));
    assert_eq!(parse_i64(&chars("9223372036854775808")), None);
    assert_eq!(parse_i64(&chars("")), None);
    assert_eq!(parse_i64(&chars("12a")), None);
    assert_eq!(parse_u32(&chars("ff"), 16), Some(255));
}

#[test]
fn json_quote_escapes() {
    assert_eq!(s(&quote("a\"b\\c\nd\te\u{1}")), "\"a\\\"b\\\\c\\nd\\te\\u0001\"");
    assert_eq!(s(&quote("plain é")), "\"plain é\"");
}

fn payload() -> StrapiArticlePayload {
    StrapiArticlePayload {
        site: "Daily_Squirt".to_string(),
        title: "T".to_string(),
        slug: "t".to_string(),
        excerpt: "E".to_string(),
        publish_date: "2024-01-01T00:00:00".to_string(),
        body: "<p>x</p>".to_string(),
        ds_performers: vec!["p1".to_string(), "p2".to_string()],
        ds_studios: vec![],
        cover_image: CoverImagePayload { public: Some(9), alt_tag: "alt".to_string() },
        ds_author: "12".to_string(),
        ds_sub_category: String::new(),
        allow_comment: true,
        registration_cta_block: vec![RegistrationCtaBlock {
            enabled: true,
            position_after_paragraph: 3,
            label: "Join".to_string(),
            url: "https://j".to_string(),
        }],
    }
}

#[test]
fn article_json_members_in_key_order() {
    let expected = [
        "{\"data\":{\"Allow_Comment\":true,\"Body\":\"<p>x</p>\",",
        "\"Cover_Image\":{\"AltTag\":\"alt\",\"Public\":9},\"Excerpt\":\"E\",",
        "\"Publish_Date\":\"2024-01-01T00:00:00\",\"Site\":\"Daily_Squirt\",\"Slug\":\"t\",\"Title\":\"T\",",
        "\"ds_author\":{\"connect\":[\"12\"]},\"ds_performers\":{\"connect\":[\"p1\",\"p2\"]},",
        "\"registration_cta_block\":[{\"Enabled\":true,\"label\":\"Join\",\"position_after_paragraph\":3,\"url\":\"https://j\"}]}}",
    ]
    .join("");
    assert_eq!(article_json(&payload()), expected);
}

#[test]
fn article_json_cover_without_positive_id_is_null() {
    let mut p = payload();
    p.cover_image.public = Some(-1);
    p.ds_performers = vec![];
    p.registration_cta_block = vec![];
    p.ds_author = String::new();
    let j = article_json(&p);
    assert!(j.contains("\"Cover_Image\":{\"AltTag\":\"alt\",\"Public\":null}"));
    assert!(!j.contains("ds_performers"));
    assert!(!j.contains("ds_author"));
    assert!(!j.contains("registration_cta_block"));
}

#[test]
fn comment_json_shape() {
    let doc = "abc".to_string();
    assert_eq!(
        comment_json("Nice", &doc, 3, "2024-02-02"),
        "{\"data\":{\"Comment\":\"Nice\",\"articleId\":{\"connect\":[\"abc\"]},\"commentedAt\":\"2024-02-02\",\"userId\":3}}"
    );
}
