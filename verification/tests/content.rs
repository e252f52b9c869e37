use std::collections::HashMap;

use migration_system::article_transformer::ArticleTransformer;
use migration_system::content_parser::ContentParser;
use migration_system::content_rebuilder::ContentRebuilder;
use migration_system::excerpt::ExcerptNormalizer;
use migration_system::models::BlockType;

const BODY: &str = "<p>Hello</p><figure class=\"wp-block-image\"><img src=\"https://a.com/x.jpg\" alt=\"A\" srcset=\"https://a.com/x-1.jpg 1x, https://a.com/x-2.jpg 2x\"></figure><div class=\"wp-block-button\"><a class=\"wp-block-button__link has-white-color has-text-color has-background\" href=\"https://go.example\">Join   now</a></div>";

#[test]
fn parse_classifies_top_level_blocks() {
    let blocks = ContentParser::parse(BODY);
    assert_eq!(blocks.len(), 3);
    assert_eq!(blocks[0].block_type, BlockType::Html);
    assert_eq!(blocks[0].index, 0);
    assert_eq!(blocks[0].raw_html, "<p>Hello</p>");
    assert_eq!(blocks[1].block_type, BlockType::Image);
    assert_eq!(blocks[1].index, 1);
    assert_eq!(blocks[1].src, "https://a.com/x.jpg");
    assert_eq!(blocks[1].raw_html, "https://a.com/x.jpg");
    assert_eq!(blocks[1].alt, "A");
    assert_eq!(blocks[1].srcset, vec!["https://a.com/x-1.jpg 1x".to_string(), "https://a.com/x-2.jpg 2x".to_string()]);
    assert_eq!(blocks[2].block_type, BlockType::Cta);
    assert_eq!(blocks[2].index, 2);
    assert_eq!(blocks[2].href, "https://go.example");
    assert_eq!(blocks[2].text, "Join now");
}

#[test]
fn parse_empty_body_has_no_blocks() {
    assert!(ContentParser::parse("").is_empty());
}

#[test]
fn parse_keeps_top_level_text() {
    let blocks = ContentParser::parse("  loose text  <p>x</p>");
    assert_eq!(blocks.len(), 2);
    assert_eq!(blocks[0].raw_html, "loose text");
    assert_eq!(blocks[1].raw_html, "<p>x</p>");
}

#[test]
fn rebuild_substitutes_urls_and_drops_ctas() {
    let blocks = ContentParser::parse(BODY);
    let mut map = HashMap::new();
    map.insert(1, "https://cdn.example/x.jpg".to_string());
    assert_eq!(
        ContentRebuilder::rebuild(&blocks, &map),
        "<p>Hello</p><p><img src=\"https://cdn.example/x.jpg\" alt=\"A\"/></p>"
    );
    // Without a relocated URL the source URL stays.
    assert_eq!(
        ContentRebuilder::rebuild(&blocks, &HashMap::new()),
        "<p>Hello</p><p><img src=\"https://a.com/x.jpg\" alt=\"A\"/></p>"
    );
}

#[test]
fn rebuild_escapes_attributes() {
    let blocks = ContentParser::parse("<img src=\"https://a.com/q.jpg\" alt=\"say &quot;hi&quot;\">");
    let out = ContentRebuilder::rebuild(&blocks, &HashMap::new());
    assert_eq!(out, "<p><img src=\"https://a.com/q.jpg\" alt=\"say &quot;hi&quot;\"/></p>");
}

#[test]
fn cta_blocks_become_payload_entries() {
    let blocks = ContentParser::parse(BODY);
    let ctas = ArticleTransformer::extract_cta_blocks(&blocks);
    assert_eq!(ctas.len(), 1);
    assert!(ctas[0].enabled);
    assert_eq!(ctas[0].position_after_paragraph, 2);
    assert_eq!(ctas[0].label, "Join now");
    assert_eq!(ctas[0].url, "https://go.example");
}

#[test]
fn slug_sanitisation() {
    assert_eq!(ArticleTransformer::sanitize_slug("Hello World!", 5), "Hello-World");
    assert_eq!(ArticleTransformer::sanitize_slug("--a__b~c.d--", 5), "a__b~c.d");
    assert_eq!(ArticleTransformer::sanitize_slug("!!!", 7), "post-7");
    assert_eq!(ArticleTransformer::sanitize_slug("", -3), "post--3");
}

#[test]
fn excerpt_plain_text() {
    assert_eq!(
        ExcerptNormalizer::normalize("<p>Hello&#8217;s <b>world</b></p><p>Second</p>"),
        "Hello\u{2019}s world Second"
    );
    assert_eq!(ExcerptNormalizer::normalize_title("  <em>Title</em> &#x41; "), "Title A");
    assert_eq!(ExcerptNormalizer::normalize_comment("line<br>break"), "line break");
}

#[test]
fn excerpt_numeric_entities() {
    assert_eq!(ExcerptNormalizer::decode_numeric_entities("a&#65;b&#x42;c&#xZZ;d"), "aAbBc&#xZZ;d");
    assert_eq!(ExcerptNormalizer::decode_numeric_entities("&#55296;"), "&#55296;");
}

#[test]
fn excerpt_collapse_whitespace() {
    assert_eq!(ExcerptNormalizer::collapse_whitespace("  a \r\n\t b  "), "a b");
}

#[test]
fn excerpt_cap_length_cuts_at_word_break() {
    assert_eq!(ExcerptNormalizer::cap_length("aaaa bbbb", 6), "aaaa\u{2026}");
    assert_eq!(ExcerptNormalizer::cap_length("short", 6), "short");
    // An astral character counts two units.
    assert_eq!(ExcerptNormalizer::cap_length("ab\u{1F600}cd", 4), "ab\u{2026}");
}

#[test]
fn excerpt_never_exceeds_limit() {
    let long: String = std::iter::repeat("word ").take(200).collect();
    let out = ExcerptNormalizer::normalize(&long);
    assert!(out.encode_utf16().count() <= 300);
    assert!(out.ends_with('\u{2026}'));
}

#[test]
fn slug_fallback_idempotence_and_collapsing() {
    // No accepted character but dashes: the id fallback.
    assert_eq!(ArticleTransformer::sanitize_slug("-%-", 42), "post-42");
    // Sanitising twice changes nothing.
    for raw in ["Hello World!", "a - b", "%e2%80%a6 caf\u{e9}", "", "---"] {
        let once = ArticleTransformer::sanitize_slug(raw, 9);
        assert_eq!(ArticleTransformer::sanitize_slug(&once, 9), once);
    }
    // Every run of dashes, written or replaced, collapses to one dash.
    assert_eq!(ArticleTransformer::sanitize_slug("a  !?  b", 1), "a-b");
    assert_eq!(ArticleTransformer::sanitize_slug("a - b", 1), "a-b");
    assert_eq!(ArticleTransformer::sanitize_slug("a--b", 1), "a-b");
    assert_eq!(ArticleTransformer::sanitize_slug("a-%-b", 1), "a-b");
}

#[test]
fn excerpt_is_clean_title_or_its_capped_prefix() {
    let short = "<p>  Short   text </p>";
    assert_eq!(ExcerptNormalizer::normalize(short), ExcerptNormalizer::normalize_title(short));
    let long: String = std::iter::repeat("<p>word</p>  ").take(200).collect();
    let title = ExcerptNormalizer::normalize_title(&long);
    let out = ExcerptNormalizer::normalize(&long);
    let body = out.strip_suffix('\u{2026}').unwrap();
    assert!(title.starts_with(body));
    assert!(!out.starts_with(char::is_whitespace));
    assert!(!out.contains("  "));
    assert!(out.encode_utf16().count() <= 300);
}

#[test]
fn every_well_formed_reference_is_decoded() {
    // Zero-padded references are decoded whatever their length.
    assert_eq!(ExcerptNormalizer::decode_numeric_entities("it&#0000008217;s"), "it\u{2019}s");
    assert_eq!(ExcerptNormalizer::decode_numeric_entities("&#x00000002019;"), "\u{2019}");
    // Everything else is copied unchanged.
    assert_eq!(ExcerptNormalizer::decode_numeric_entities("caf\u{e9} &amp; tea"), "caf\u{e9} &amp; tea");
    assert_eq!(ExcerptNormalizer::decode_numeric_entities("&#xD800;"), "&#xD800;");
    assert_eq!(ExcerptNormalizer::decode_numeric_entities("&#1114112;"), "&#1114112;");
    assert_eq!(ExcerptNormalizer::decode_numeric_entities("&#12"), "&#12");
    assert_eq!(ExcerptNormalizer::decode_numeric_entities("&#+65;"), "&#+65;");
    assert_eq!(ExcerptNormalizer::decode_numeric_entities("&#65 x;"), "&#65 x;");
}
