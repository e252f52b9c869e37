use migration_system::users::{
    batch_ranges, interpret_author_reply, interpret_user_batch, lookup_image, plan_reconciliation,
    user_batch_payload, author_payload, Author, AuthorMigrationResult, AuthorOutcome, AuthorReply,
    BulkUsersBody, BulkUsersReply, FailedUserItem, FoundUser, NotFoundUser, ReconciliationSummary,
    User, UserMigrationResult,
};

fn user(wp_id: i64, username: &str, email: &str, image: &str) -> User {
    User {
        wp_id,
        username: username.to_string(),
        email: email.to_string(),
        slug: format!("{username}-slug"),
        roles: vec![],
        image: image.to_string(),
    }
}

fn mapping() -> Vec<(String, i64)> {
    vec![("IMG_1".to_string(), 501), ("IMG_2".to_string(), 502), ("IMG_1".to_string(), 511)]
}

#[test]
fn image_lookup_later_entries_win() {
    assert_eq!(lookup_image(&mapping(), "IMG_1"), Some(511));
    assert_eq!(lookup_image(&mapping(), "IMG_2"), Some(502));
    assert_eq!(lookup_image(&mapping(), "IMG_9"), None);
}

#[test]
fn bulk_payload_entries() {
    let mut a = user(1, "ann", "", "IMG_2");
    a.roles = vec!["subscriber".to_string()];
    let b = user(2, "bob", "bob@x.org", "IMG_7");
    let body = user_batch_payload(&[a, b], &mapping());
    assert_eq!(
        body,
        "{\"data\":[{\"email\":\"dailysquirt+ann@placeholder.com\",\"image\":502,\"roles\":[\"subscriber\"],\"slug\":\"ann-slug\",\"username\":\"ann\",\"wpId\":1},{\"email\":\"bob@x.org\",\"slug\":\"bob-slug\",\"username\":\"bob\",\"wpId\":2}]}"
    );
}

#[test]
fn batch_ranges_split_users() {
    assert_eq!(batch_ranges(5, 2), vec![(0, 2), (2, 4), (4, 5)]);
    assert_eq!(batch_ranges(4, 0), vec![(0, 1), (1, 2), (2, 3), (3, 4)]);
    assert!(batch_ranges(0, 10).is_empty());
}

#[test]
fn batch_http_failure_fails_everyone() {
    let chunk = vec![user(1, "a", "", ""), user(2, "b", "", "")];
    let out = interpret_user_batch(&chunk, &BulkUsersReply::Response { status: 500, body: "oops".to_string(), parsed: None });
    assert!(out.successes.is_empty());
    assert!(!out.save_mapping);
    assert_eq!(out.failures.len(), 2);
    assert_eq!(out.failures[1].wp_id, 2);
    assert_eq!(out.failures[1].reason, "HTTP 500: oops");
}

#[test]
fn batch_transport_failure() {
    let chunk = vec![user(1, "a", "", "")];
    let out = interpret_user_batch(&chunk, &BulkUsersReply::Failed { message: "connection reset".to_string() });
    assert_eq!(out.failures[0].reason, "connection reset");
}

#[test]
fn batch_success_reply() {
    let chunk = vec![user(1, "a", "", ""), user(2, "b", "", ""), user(3, "c", "", "")];
    let body = BulkUsersBody {
        success_map: Some(vec![("1".to_string(), Some(101)), ("x".to_string(), Some(5)), ("2".to_string(), None)]),
        failed_users: Some(vec![
            FailedUserItem { wp_id: Some(3), reason: Some("dup".to_string()) },
            FailedUserItem { wp_id: Some(2), reason: None },
            FailedUserItem { wp_id: None, reason: Some("ignored".to_string()) },
        ]),
        failed_wp_ids: Some(vec![Some(9)]),
    };
    let out = interpret_user_batch(&chunk, &BulkUsersReply::Response { status: 200, body: String::new(), parsed: Some(body) });
    assert!(out.save_mapping);
    assert_eq!(out.successes, vec![(1, 101)]);
    assert_eq!(out.failures.len(), 2);
    assert_eq!((out.failures[0].wp_id, out.failures[0].reason.as_str()), (3, "dup"));
    assert_eq!((out.failures[1].wp_id, out.failures[1].reason.as_str()), (2, "unknown"));

    let mut result = UserMigrationResult::new(3);
    result.absorb(&out);
    assert_eq!(result.total, 3);
    assert_eq!(result.succeeded, 1);
    assert_eq!(result.failed, 2);
    assert_eq!(result.success_map.get(&1), Some(&101));
    assert_eq!(result.failed_wp_ids, vec![3, 2]);
    assert_eq!(result.failure_reasons.get(&2).map(|s| s.as_str()), Some("unknown"));
}

#[test]
fn batch_legacy_failures() {
    let chunk = vec![user(1, "a", "", "")];
    let body = BulkUsersBody { success_map: None, failed_users: None, failed_wp_ids: Some(vec![Some(1), None]) };
    let out = interpret_user_batch(&chunk, &BulkUsersReply::Response { status: 201, body: String::new(), parsed: Some(body) });
    assert_eq!(out.failures.len(), 1);
    assert_eq!(out.failures[0].reason, "unknown (legacy failedWpIds response)");
}

#[test]
fn batch_unparsable_success_counts_nothing() {
    let chunk = vec![user(1, "a", "", "")];
    let out = interpret_user_batch(&chunk, &BulkUsersReply::Response { status: 200, body: "<html>".to_string(), parsed: None });
    assert!(out.successes.is_empty() && out.failures.is_empty() && out.save_mapping);
}

fn author(wp_id: i64, username: &str, email: &str, image: &str) -> Author {
    Author { wp_id, username: username.to_string(), email: email.to_string(), slug: String::new(), roles: vec![], image: image.to_string() }
}

#[test]
fn author_payloads() {
    assert_eq!(
        author_payload(&author(1, "Ann", "a@x", "IMG_1"), &mapping()),
        "{\"data\":{\"Avtar\":511,\"Name\":\"Ann\",\"email\":\"a@x\",\"publishedAt\":\"2026-05-25T00:00:00Z\"}}"
    );
    assert_eq!(
        author_payload(&author(1, "Bo", "", ""), &mapping()),
        "{\"data\":{\"Name\":\"Bo\",\"publishedAt\":\"2026-05-25T00:00:00Z\"}}"
    );
}

#[test]
fn author_replies() {
    assert_eq!(interpret_author_reply(AuthorReply::Response { status: 201, body: String::new(), id: Some(Some(7)) }), AuthorOutcome::Created(7));
    assert_eq!(interpret_author_reply(AuthorReply::Response { status: 201, body: String::new(), id: Some(None) }), AuthorOutcome::Failed("no id in response".to_string()));
    assert_eq!(interpret_author_reply(AuthorReply::Response { status: 201, body: String::new(), id: None }), AuthorOutcome::Ignored);
    assert_eq!(interpret_author_reply(AuthorReply::Response { status: 409, body: "dup".to_string(), id: None }), AuthorOutcome::Failed("HTTP 409: dup".to_string()));
    assert_eq!(interpret_author_reply(AuthorReply::Failed { message: "down".to_string() }), AuthorOutcome::Failed("down".to_string()));

    let mut r = AuthorMigrationResult::new(2);
    r.absorb(1, AuthorOutcome::Created(7));
    r.absorb(2, AuthorOutcome::Failed("x".to_string()));
    r.absorb(3, AuthorOutcome::Ignored);
    assert_eq!((r.succeeded, r.failed), (1, 1));
    assert_eq!(r.success_map.get(&1), Some(&7));
    assert_eq!(r.failed_wp_ids, vec![2]);
}

#[test]
fn reconciliation() {
    let users = vec![
        user(1, "ann", "ann@x", ""),
        user(2, "bob", "", ""),
        user(3, "cy", "", ""),
        user(3, "cy2", "shared@x", ""),
        user(4, "dee", "shared@x", ""),
        user(5, "", "", ""),
    ];
    let plan = plan_reconciliation(&[1, 2, 3, 4, 5, 6], &users);
    assert_eq!(plan.identifiers, vec!["ann@x".to_string(), "bob".to_string(), "shared@x".to_string()]);
    let mut summary = ReconciliationSummary::new(6);
    summary.apply_found(&plan, &FoundUser { identifier: Some("shared@x".to_string()), user_id: Some(90), found_by: Some("email".to_string()) });
    summary.apply_found(&plan, &FoundUser { identifier: Some("ann@x".to_string()), user_id: Some(0), found_by: None });
    summary.apply_found(&plan, &FoundUser { identifier: Some("bob".to_string()), user_id: Some(91), found_by: None });
    summary.apply_not_found(&plan, &NotFoundUser { identifier: Some("ann@x".to_string()), reason: None });
    summary.apply_not_found(&plan, &NotFoundUser { identifier: None, reason: Some("x".to_string()) });
    assert_eq!(summary.total_attempted, 6);
    assert_eq!(summary.total_recovered, 3);
    assert_eq!(summary.total_not_found, 1);
    assert_eq!(summary.recovered_mappings.get(&3), Some(&90));
    assert_eq!(summary.recovered_mappings.get(&4), Some(&90));
    assert_eq!(summary.recovered_mappings.get(&2), Some(&91));
    assert_eq!(summary.results.len(), 4);
    assert_eq!(summary.results[2].found_by, "unknown");
    assert_eq!(summary.results[3].found_by, "not_found");
    assert_eq!(summary.results[3].reason, "Not found");
    assert!(!summary.results[3].success);
}
