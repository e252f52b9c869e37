use std::collections::HashMap;

use migration_system::avatars::{
    avatar_download_failed, avatar_downloaded, avatar_file_name, avatar_mime, avatar_usable_exec,
    avatar_write_failed, download_totals, image_variables, upload_candidates, upload_failed_count,
    ImageVariables, VarEntry, VarLeaf,
};
use migration_system::config::Config;
use migration_system::http::BinaryResponse;
use migration_system::image::{DownloadedImageItem, ImageService};
use migration_system::models::{BlockType, ContentBlock};
use migration_system::strapi::{
    EntityError, EntityFields, EntityResponse, MediaUploadItem, StrapiClient, UploadReply,
    UserImagesReply,
};

fn cfg() -> Config {
    let mut c = Config::default();
    c.strapi_base_url = "http://localhost:1337/".to_string();
    c.token = "tok".to_string();
    c
}

#[test]
fn api_urls_and_headers() {
    let c = StrapiClient::new(cfg());
    assert_eq!(c.build_api_url("/api/upload"), "http://localhost:1337/api/upload");
    assert_eq!(c.build_api_url("api/x"), "http://localhost:1337/api/x");
    assert_eq!(c.auth_headers(true), vec!["Authorization: Bearer tok".to_string(), "Content-Type: application/json".to_string()]);
    let mut m = cfg();
    m.migration_token = "mig".to_string();
    assert_eq!(StrapiClient::new(m).migration_auth_headers(false), vec!["Authorization: Bearer mig".to_string()]);
    assert_eq!(StrapiClient::make_absolute_url("http://h/", "/uploads/a.png"), "http://h/uploads/a.png");
    assert_eq!(StrapiClient::make_absolute_url("http://h", "https://cdn/a.png"), "https://cdn/a.png");
    assert!(StrapiClient::new(cfg()).with_dry_run(true).is_dry_run());
}

fn item(index: i32, name: &str, bytes: usize) -> MediaUploadItem {
    MediaUploadItem { block_index: index, file_name: name.to_string(), mime_type: "image/png".to_string(), data: vec![0u8; bytes] }
}

#[test]
fn upload_batches_within_limit() {
    let items = vec![item(0, "a", 1000), item(1, "b", 1000), item(2, "c", 5000)];
    let plan = StrapiClient::plan_upload_batches(&items, 7100).unwrap();
    assert_eq!(plan, vec![vec![0, 1], vec![2]]);
    assert_eq!(StrapiClient::plan_upload_batches(&items, 6000), Err(2));
}

#[test]
fn created_entity_replies() {
    let fields = EntityFields {
        id: Some(4),
        name: None,
        attributes_name: Some("Attr".to_string()),
        slug: Some("s".to_string()),
        attributes_slug: None,
        document_id: None,
        attributes_document_id: None,
    };
    let r = StrapiClient::parse_created_entity(&EntityResponse::Created(fields), "n", "sl").unwrap();
    assert_eq!((r.id, r.document_id.as_str(), r.name.as_str(), r.slug.as_str()), (4, "s", "Attr", "s"));
    let dup = EntityResponse::Failed { status: 400, body: "{}".to_string(), error_message: Some("This attribute must be UNIQUE".to_string()) };
    let r = StrapiClient::parse_created_entity(&dup, "n", "sl").unwrap();
    assert_eq!((r.id, r.document_id.as_str()), (-1, "sl"));
    let bad = EntityResponse::Failed { status: 500, body: "x".to_string(), error_message: None };
    assert!(StrapiClient::parse_created_entity(&bad, "n", "sl").is_err());
    let d = StrapiClient::dry_run_entity("Name", "slug");
    assert_eq!((d.id, d.document_id.as_str()), (-1, "dry-slug"));
}

#[test]
fn single_uploads() {
    let ok = UploadReply { status: 200, body: String::new(), entries: Some(Some(vec![(Some(3), Some("/uploads/c.jpg".to_string()))])) };
    let m = StrapiClient::uploaded_media("http://h/", &ok).unwrap();
    assert_eq!((m.id, m.url.as_str()), (3, "http://h/uploads/c.jpg"));
    let empty = UploadReply { status: 200, body: "[]".to_string(), entries: Some(Some(vec![])) };
    assert_eq!(StrapiClient::uploaded_media("http://h", &empty).unwrap_err(), "upload_media: empty response");
    let http = UploadReply { status: 413, body: "too big".to_string(), entries: None };
    assert_eq!(StrapiClient::uploaded_media("http://h", &http).unwrap_err(), "upload_media: HTTP 413: too big");
    let no_id = UploadReply { status: 200, body: String::new(), entries: Some(Some(vec![(None, Some("u".to_string()))])) };
    assert_eq!(StrapiClient::uploaded_media("http://h", &no_id).unwrap_err(), "missing id");
    assert_eq!(StrapiClient::dry_run_media("a.png").url, "dry-run://a.png");
}

#[test]
fn avatar_batch_upload_replies() {
    let ids = vec!["IMG_1".to_string(), "IMG_2".to_string()];
    let ok = UserImagesReply { status: 200, body: String::new(), ids: Ok(Some(vec![Some(5), None])) };
    assert_eq!(StrapiClient::user_image_ids(&ids, &ok).unwrap(), vec![("IMG_1".to_string(), 5)]);
    let short = UserImagesReply { status: 200, body: String::new(), ids: Ok(Some(vec![Some(5)])) };
    assert_eq!(StrapiClient::user_image_ids(&ids, &short).unwrap_err(), "upload_user_images_batch: response size mismatch");
    assert_eq!(StrapiClient::dry_run_user_images(&ids), vec![("IMG_1".to_string(), -1), ("IMG_2".to_string(), -1)]);
    assert_eq!(StrapiClient::find_users_body(&ids), "{\"identifiers\":[\"IMG_1\",\"IMG_2\"]}");
}

#[test]
fn dry_run_urls() {
    let m = StrapiClient::dry_run_url_map(&[item(2, "a.png", 1), item(2, "b.png", 1)]);
    assert_eq!(m.get(&2), Some(&"dry-run://b.png".to_string()));
    let entries = StrapiClient::batch_url_entries("http://h", &vec![4, 5], &vec![Some("/u/a".to_string()), None]).unwrap();
    assert_eq!(entries, vec![(4, "http://h/u/a".to_string()), (5, "http://h/".to_string())]);
}

fn image_block(index: i32, src: &str, srcset: &[&str]) -> ContentBlock {
    let mut b = ContentBlock::blank(BlockType::Image, index);
    b.src = src.to_string();
    b.srcset = srcset.iter().map(|s| s.to_string()).collect();
    b
}

#[test]
fn image_urls_and_names() {
    assert_eq!(ImageService::normalize_image_url("//cdn.x/a.png"), "https://cdn.x/a.png");
    assert_eq!(ImageService::normalize_image_url("http://a"), "http://a");
    assert_eq!(ImageService::choose_best_image_url(&image_block(0, "", &["  //c/x.png 2x", "y"])), "https://c/x.png");
    assert_eq!(ImageService::filename_from_url("https://a/b/c.jpg?x=1#f"), Some("c.jpg".to_string()));
    assert_eq!(ImageService::filename_from_url("https://a/b/"), None);
    let long = format!("{}.jpeg", "n".repeat(100));
    assert_eq!(ImageService::cap_filename(&long), format!("{}.jpeg", "n".repeat(75)));
    assert_eq!(ImageService::sanitize_filename("a b/c.png"), "a_b_c.png");
    assert_eq!(ImageService::infer_mime("X.JPG"), "image/jpeg");
    assert_eq!(ImageService::infer_mime("x.svg"), "image/svg+xml");
    assert_eq!(ImageService::guess_extension("https://a/x.png?q=1", &[]), "png");
    assert_eq!(ImageService::guess_extension("https://a/noext", &[0x89, 0x50, 0x4E, 0x47]), "png");
    assert_eq!(ImageService::guess_extension("https://a/noext", &[0xFF, 0xD8, 0xFF]), "jpg");
    assert_eq!(ImageService::guess_extension("https://a/noext", &[1, 2]), "bin");
    assert_eq!(ImageService::download_file_name("https://a/", 4), "image-4.bin");
}

#[test]
fn image_requests_and_strict_outcomes() {
    let b0 = image_block(0, "https://a/x.png", &[]);
    let b1 = image_block(1, "", &[]);
    let b2 = image_block(2, "https://a/y.png", &[]);
    let reqs = ImageService::collect_requests(&[&b0, &b1, &b2]);
    assert_eq!(reqs, vec![(0, "https://a/x.png".to_string()), (2, "https://a/y.png".to_string())]);
    let items = vec![DownloadedImageItem { block_index: 0, source_url: "https://a/x.png".to_string(), file_name: "x.png".to_string(), data: vec![1] }];
    let fail = ImageService::strict_download_failure(&reqs, &items).unwrap();
    assert!(!fail.success);
    assert_eq!(fail.failed_image_urls, vec!["https://a/y.png".to_string()]);
    assert_eq!(fail.failure_reason, "Failed to download 1 of 2 images");
    let mut urls = HashMap::new();
    urls.insert(0, "https://cdn/x.png".to_string());
    let ok = ImageService::strict_upload_outcome(1, &items, urls);
    assert!(ok.success);
    assert_eq!(ok.successfully_processed_count, 1);
    let bad = ImageService::strict_upload_outcome(1, &items, HashMap::new());
    assert_eq!(bad.failure_reason, "Failed to upload 1 images to Strapi");
    assert!(ImageService::strict_nothing_to_do().success);
    let up = ImageService::upload_items(&items);
    assert_eq!(up[0].mime_type, "image/png");
    let cover = ImageService::cover_item("https://a/c.webp", vec![1, 2]).unwrap();
    assert_eq!((cover.block_index, cover.file_name.as_str(), cover.mime_type.as_str()), (-1, "c.webp", "image/webp"));
    assert_eq!(ImageService::cover_item("https://a/", vec![]).unwrap_err(), "cover image: empty body from https://a/");
}

#[test]
fn avatars() {
    let v = ImageVariables::Object(vec![
        VarEntry { key: "meta".to_string(), leaf: VarLeaf { text: Some("m".to_string()), url: None }, object: None },
        VarEntry {
            key: "data".to_string(),
            leaf: VarLeaf { text: None, url: None },
            object: Some(vec![
                ("IMG_1".to_string(), VarLeaf { text: Some("https://a/1.png".to_string()), url: None }),
                ("IMG_2".to_string(), VarLeaf { text: None, url: Some("https://a/2.png".to_string()) }),
                ("IMG_3".to_string(), VarLeaf { text: None, url: None }),
            ]),
        },
    ]);
    assert_eq!(
        image_variables(&v).unwrap(),
        vec![("IMG_1".to_string(), "https://a/1.png".to_string()), ("IMG_2".to_string(), "https://a/2.png".to_string())]
    );
    let flat = ImageVariables::Object(vec![VarEntry { key: "IMG_9".to_string(), leaf: VarLeaf { text: Some("u".to_string()), url: None }, object: None }]);
    assert_eq!(image_variables(&flat).unwrap(), vec![("IMG_9".to_string(), "u".to_string())]);
    let arr = ImageVariables::Array(vec![(Some("a".to_string()), Some("u".to_string())), (None, Some("v".to_string()))]);
    assert_eq!(image_variables(&arr).unwrap().len(), 1);
    assert!(image_variables(&ImageVariables::Other).is_none());

    assert!(avatar_usable_exec(&Some(BinaryResponse { status_code: 200, data: vec![1] })));
    assert!(!avatar_usable_exec(&Some(BinaryResponse { status_code: 404, data: vec![1] })));
    assert!(!avatar_usable_exec(&None));
    assert_eq!(avatar_file_name("IMG_1", "https://a/p.jpeg?x", &[1]), "IMG_1.jpeg");
    let results = vec![
        avatar_downloaded("IMG_1".to_string(), "u".to_string(), "d/IMG_1.png".to_string(), 3),
        avatar_write_failed("IMG_2".to_string(), "u".to_string(), "disk full"),
        avatar_download_failed("IMG_3".to_string(), "u".to_string()),
    ];
    assert_eq!(results[1].error_message, "write: disk full");
    assert_eq!(results[2].error_message, "download empty or HTTP error");
    assert_eq!(download_totals(&results), (3, 1, 2));
    assert_eq!(upload_candidates(&results), vec![0]);
    assert_eq!(upload_failed_count(3, 1), 2);
}

#[test]
fn avatar_mime_follows_extension() {
    assert_eq!(avatar_mime("data/users/downloaded/IMG_1.png"), "image/png");
    assert_eq!(avatar_mime("data/users/downloaded/IMG_2.gif"), "image/gif");
    assert_eq!(avatar_mime("IMG_3.unknownext"), "application/octet-stream");
}

#[test]
fn entity_reply_classification() {
    let fields = || EntityFields {
        id: Some(4),
        name: None,
        attributes_name: None,
        slug: None,
        attributes_slug: None,
        document_id: Some("doc".to_string()),
        attributes_document_id: None,
    };
    assert!(matches!(
        StrapiClient::entity_response(409, "{}".to_string(), Some("taken".to_string()), Some(fields())),
        EntityResponse::Failed { status: 409, error_message: Some(m), .. } if m == "taken"
    ));
    assert!(matches!(StrapiClient::entity_response(201, " \n\t".to_string(), None, None), EntityResponse::EmptyBody));
    assert!(matches!(
        StrapiClient::entity_response(200, "<html>".to_string(), None, None),
        EntityResponse::Unparsable { body } if body == "<html>"
    ));
    assert!(matches!(
        StrapiClient::entity_response(201, "{\"data\":{}}".to_string(), None, Some(fields())),
        EntityResponse::Created(f) if f.id == Some(4)
    ));
}

#[test]
fn entity_error_texts() {
    let e = EntityError::Http { status: 502, body: "bad gateway".to_string() };
    assert_eq!(e.message(), "create_entity: HTTP 502: bad gateway");
    let e = EntityError::Parse { body: "<html>".to_string() };
    assert_eq!(e.message(), "parse_created_entity body: <html>");
}
