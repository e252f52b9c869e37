//! Users and authors: the bodies sent to Strapi's bulk user route and to the
//! author collection, the interpretation of their replies, the accumulated
//! migration results, and the reconciliation of failed users against users
//! that already exist in Strapi.
use std::collections::HashMap;

use vstd::prelude::*;

use crate::json::{
    char_views, int_text, json_int, json_member, json_object, json_string, json_string_array,
    member, object, quote, string_array, array, json_array,
};
use crate::orchestrator::optional;
use crate::text::{
    chars_eq, chars_of, extend_chars, extend_str, nat_digits, parse_i64, parse_i64_spec,
    string_of, truncate, truncate_spec, u64_digits,
};

verus! {

broadcast use vstd::std_specs::hash::group_hash_axioms;

/// A WordPress user exported for migration.
#[derive(Debug, Clone, Default)]
pub struct User {
    pub wp_id: i64,
    pub username: String,
    pub email: String,
    pub slug: String,
    pub roles: Vec<String>,
    /// Avatar image id (`IMG_N`), empty when the user has none.
    pub image: String,
}

/// A WordPress author exported for migration.
#[derive(Debug, Clone, Default)]
pub struct Author {
    pub wp_id: i64,
    pub username: String,
    pub email: String,
    pub slug: String,
    pub roles: Vec<String>,
    pub image: String,
}

/// Per-user failure detail captured during a batch.
#[derive(Debug, Clone)]
pub struct UserBatchFailure {
    pub wp_id: i64,
    pub reason: String,
}

// ---------------- avatar lookup ----------------

/// The value of `key` in an association list, later entries winning.
pub open spec fn assoc_get(s: Seq<(String, i64)>, key: Seq<char>) -> Option<i64>
    decreases s.len(),
{
    if s.len() == 0 {
        None
    } else if s.last().0@ == key {
        Some(s.last().1)
    } else {
        assoc_get(s.drop_last(), key)
    }
}

/// The Strapi media id of an avatar image id in the image mapping (pairs of
/// image id and media id, later pairs winning).
pub fn lookup_image(mapping: &Vec<(String, i64)>, image_id: &str) -> (r: Option<i64>)
    ensures
        r == assoc_get(mapping@, image_id@),
{
    let key = chars_of(image_id);
    let mut i = mapping.len();
    assert(mapping@.take(i as int) =~= mapping@);
    while i > 0
        invariant
            i <= mapping.len(),
            key@ == image_id@,
            assoc_get(mapping@, image_id@) == assoc_get(mapping@.take(i as int), image_id@),
        decreases i,
    {
        let cur = chars_of(mapping[i - 1].0.as_str());
        assert(mapping@.take(i as int).drop_last() =~= mapping@.take(i - 1));
        if chars_eq(&cur, &key) {
            return Some(mapping[i - 1].1);
        }
        i = i - 1;
    }
    None
}

// ---------------- bulk user bodies ----------------

/// The email sent for a user: its own, or a placeholder built from its username.
pub open spec fn user_email_spec(u: User) -> Seq<char> {
    if u.email@.len() == 0 {
        "dailysquirt+"@ + u.username@ + "@placeholder.com"@
    } else {
        u.email@
    }
}

pub open spec fn user_image_spec(u: User, mapping: Seq<(String, i64)>) -> Option<i64> {
    if u.image@.len() == 0 {
        None
    } else {
        assoc_get(mapping, u.image@)
    }
}

/// One user of a bulk request, members in key order: the roles only when there
/// are some, the avatar's media id only when it is mapped.
pub open spec fn user_entry_json(u: User, mapping: Seq<(String, i64)>) -> Seq<char> {
    let img = user_image_spec(u, mapping);
    json_object(
        seq![json_member("email"@, json_string(user_email_spec(u)))] + optional(
            img is Some,
            json_member("image"@, json_int(img->0 as int)),
        ) + optional(
            u.roles@.len() > 0,
            json_member("roles"@, json_string_array(u.roles@.map_values(|s: String| s@))),
        ) + seq![
            json_member("slug"@, json_string(u.slug@)),
            json_member("username"@, json_string(u.username@)),
            json_member("wpId"@, json_int(u.wp_id as int)),
        ],
    )
}

/// The body of one bulk request: `{"data":[users...]}`.
pub open spec fn user_batch_json(chunk: Seq<User>, mapping: Seq<(String, i64)>) -> Seq<char> {
    json_object(
        seq![
            json_member(
                "data"@,
                json_array(chunk.map_values(|u: User| user_entry_json(u, mapping))),
            ),
        ],
    )
}

fn user_email(u: &User) -> (r: Vec<char>)
    ensures
        r@ == user_email_spec(*u),
{
    if u.email.as_str().is_empty() {
        let mut v = chars_of("dailysquirt+");
        extend_str(&mut v, u.username.as_str());
        extend_str(&mut v, "@placeholder.com");
        v
    } else {
        chars_of(u.email.as_str())
    }
}

fn user_entry(u: &User, mapping: &Vec<(String, i64)>) -> (r: Vec<char>)
    ensures
        r@ == user_entry_json(*u, mapping@),
{
    let ghost img = user_image_spec(*u, mapping@);
    let mut m: Vec<Vec<char>> = Vec::new();
    let email = user_email(u);
    let email_text = quote(string_of(&email).as_str());
    m.push(member("email", email_text));
    let image = if u.image.as_str().is_empty() {
        None
    } else {
        lookup_image(mapping, u.image.as_str())
    };
    assert(image == img);
    match image {
        Some(id) => m.push(member("image", int_text(id))),
        None => {},
    }
    if u.roles.len() > 0 {
        m.push(member("roles", string_array(&u.roles)));
    }
    m.push(member("slug", quote(u.slug.as_str())));
    m.push(member("username", quote(u.username.as_str())));
    m.push(member("wpId", int_text(u.wp_id)));
    assert(char_views(m@) =~= seq![json_member("email"@, json_string(user_email_spec(*u)))]
        + optional(img is Some, json_member("image"@, json_int(img->0 as int))) + optional(
        u.roles@.len() > 0,
        json_member("roles"@, json_string_array(u.roles@.map_values(|s: String| s@))),
    ) + seq![
        json_member("slug"@, json_string(u.slug@)),
        json_member("username"@, json_string(u.username@)),
        json_member("wpId"@, json_int(u.wp_id as int)),
    ]);
    object(&m)
}

/// The body posted to the bulk user route for one batch (see `user_batch_json`).
pub fn user_batch_payload(chunk: &[User], mapping: &Vec<(String, i64)>) -> (r: String)
    ensures
        r@ == user_batch_json(chunk@, mapping@),
{
    let mut entries: Vec<Vec<char>> = Vec::new();
    for i in 0..chunk.len()
        invariant
            entries.len() == i,
            forall|k: int| 0 <= k < i ==> entries@[k]@ == user_entry_json(chunk@[k], mapping@),
    {
        entries.push(user_entry(&chunk[i], mapping));
    }
    assert(char_views(entries@) =~= chunk@.map_values(|u: User| user_entry_json(u, mapping@)));
    let mut outer: Vec<Vec<char>> = Vec::new();
    outer.push(member("data", array(&entries)));
    assert(char_views(outer@) =~= seq![
        json_member(
            "data"@,
            json_array(chunk@.map_values(|u: User| user_entry_json(u, mapping@))),
        ),
    ]);
    string_of(&object(&outer))
}

// ---------------- bulk user replies ----------------

/// An entry of `failedUsers`: its `wpId` and `reason` where they are an integer
/// and a string.
#[derive(Debug, Clone)]
pub struct FailedUserItem {
    pub wp_id: Option<i64>,
    pub reason: Option<String>,
}

/// What the JSON of a 2xx bulk reply holds (under `data` when present, else at
/// the root).
#[derive(Debug, Clone)]
pub struct BulkUsersBody {
    /// `successMap` entries (key text, value when it is an integer); `None` when
    /// absent or not an object.
    pub success_map: Option<Vec<(String, Option<i64>)>>,
    /// `failedUsers`; `None` when absent or not an array.
    pub failed_users: Option<Vec<FailedUserItem>>,
    /// `failedWpIds` entries (when integers); `None` when absent or not an array.
    pub failed_wp_ids: Option<Vec<Option<i64>>>,
}

/// What the bulk user request returned.
#[derive(Debug)]
pub enum BulkUsersReply {
    /// No response: the error's text.
    Failed { message: String },
    /// An HTTP response; `parsed` is `None` when a 2xx body is not JSON.
    Response { status: u16, body: String, parsed: Option<BulkUsersBody> },
}

/// What one batch contributes to the result.
#[derive(Debug)]
pub struct BatchOutcome {
    /// WordPress id -> Strapi id, in reply order.
    pub successes: Vec<(i64, i64)>,
    pub failures: Vec<UserBatchFailure>,
    /// Whether the reply was a 2xx response (the mapping file is rewritten).
    pub save_mapping: bool,
}

pub open spec fn failure_view(f: UserBatchFailure) -> (i64, Seq<char>) {
    (f.wp_id, f.reason@)
}

pub open spec fn failure_views(s: Seq<UserBatchFailure>) -> Seq<(i64, Seq<char>)> {
    s.map_values(|f: UserBatchFailure| failure_view(f))
}

/// Every user of the chunk fails with the same reason.
pub open spec fn all_fail(chunk: Seq<User>, reason: Seq<char>) -> Seq<(i64, Seq<char>)> {
    chunk.map_values(|u: User| (u.wp_id, reason))
}

/// `HTTP <status>: <first 200 of the body>`.
pub open spec fn http_reason(status: u16, body: Seq<char>) -> Seq<char> {
    "HTTP "@ + nat_digits(status as nat) + ": "@ + truncate_spec(body, 200)
}

/// The `successMap` entries whose key parses as an integer and whose value is one.
pub open spec fn success_entries(s: Seq<(String, Option<i64>)>) -> Seq<(i64, i64)>
    decreases s.len(),
{
    if s.len() == 0 {
        Seq::empty()
    } else {
        let rest = success_entries(s.drop_last());
        match (parse_i64_spec(s.last().0@), s.last().1) {
            (Some(wp), Some(sid)) => rest.push((wp, sid)),
            _ => rest,
        }
    }
}

pub open spec fn failed_user_entries(s: Seq<FailedUserItem>) -> Seq<(i64, Seq<char>)>
    decreases s.len(),
{
    if s.len() == 0 {
        Seq::empty()
    } else {
        let rest = failed_user_entries(s.drop_last());
        match s.last().wp_id {
            Some(wp) => rest.push(
                (
                    wp,
                    match s.last().reason {
                        Some(r) => r@,
                        None => "unknown"@,
                    },
                ),
            ),
            None => rest,
        }
    }
}

pub open spec fn legacy_failed_entries(s: Seq<Option<i64>>) -> Seq<(i64, Seq<char>)>
    decreases s.len(),
{
    if s.len() == 0 {
        Seq::empty()
    } else {
        let rest = legacy_failed_entries(s.drop_last());
        match s.last() {
            Some(wp) => rest.push((wp, "unknown (legacy failedWpIds response)"@)),
            None => rest,
        }
    }
}

/// The failures that a 2xx reply reports: `failedUsers` when present, else the
/// legacy `failedWpIds`.
pub open spec fn body_failures(b: BulkUsersBody) -> Seq<(i64, Seq<char>)> {
    match b.failed_users {
        Some(items) => failed_user_entries(items@),
        None => match b.failed_wp_ids {
            Some(ids) => legacy_failed_entries(ids@),
            None => Seq::empty(),
        },
    }
}

pub open spec fn batch_successes_spec(reply: BulkUsersReply) -> Seq<(i64, i64)> {
    match reply {
        BulkUsersReply::Response { status, parsed: Some(b), .. } => if 200 <= status < 300 {
            match b.success_map {
                Some(entries) => success_entries(entries@),
                None => Seq::empty(),
            }
        } else {
            Seq::empty()
        },
        _ => Seq::empty(),
    }
}

pub open spec fn batch_failures_spec(chunk: Seq<User>, reply: BulkUsersReply) -> Seq<(i64, Seq<char>)> {
    match reply {
        BulkUsersReply::Failed { message } => all_fail(chunk, message@),
        BulkUsersReply::Response { status, body, parsed } => if 200 <= status < 300 {
            match parsed {
                Some(b) => body_failures(b),
                None => Seq::empty(),
            }
        } else {
            all_fail(chunk, http_reason(status, body@))
        },
    }
}

fn http_reason_text(status: u16, body: &str) -> (r: String)
    ensures
        r@ == http_reason(status, body@),
{
    let mut v: Vec<char> = chars_of("HTTP ");
    let d = u64_digits(status as u64);
    extend_chars(&mut v, &d);
    extend_str(&mut v, ": ");
    let t = truncate(body, 200);
    extend_str(&mut v, t.as_str());
    string_of(&v)
}

fn fail_all(chunk: &[User], reason: &String) -> (r: Vec<UserBatchFailure>)
    ensures
        failure_views(r@) == all_fail(chunk@, reason@),
{
    let mut out: Vec<UserBatchFailure> = Vec::new();
    for i in 0..chunk.len()
        invariant
            failure_views(out@) == all_fail(chunk@.take(i as int), reason@),
    {
        let ghost before = out@;
        let f = UserBatchFailure { wp_id: chunk[i].wp_id, reason: reason.clone() };
        assert(failure_view(f) == (chunk@[i as int].wp_id, reason@));
        out.push(f);
        assert(out@ == before.push(f));
        assert(failure_views(out@) =~= failure_views(before).push(failure_view(f)));
        assert(all_fail(chunk@.take(i + 1), reason@) =~= all_fail(chunk@.take(i as int), reason@).push(
            (chunk@[i as int].wp_id, reason@),
        ));
    }
    assert(chunk@.take(chunk.len() as int) =~= chunk@);
    out
}

fn successes_of(entries: &Vec<(String, Option<i64>)>) -> (r: Vec<(i64, i64)>)
    ensures
        r@ == success_entries(entries@),
{
    let mut out: Vec<(i64, i64)> = Vec::new();
    for i in 0..entries.len()
        invariant
            out@ == success_entries(entries@.take(i as int)),
    {
        assert(entries@.take(i + 1).drop_last() =~= entries@.take(i as int));
        let k = chars_of(entries[i].0.as_str());
        match (parse_i64(&k), entries[i].1) {
            (Some(wp), Some(sid)) => out.push((wp, sid)),
            _ => {},
        }
    }
    assert(entries@.take(entries.len() as int) =~= entries@);
    out
}

fn failures_of(b: &BulkUsersBody) -> (r: Vec<UserBatchFailure>)
    ensures
        failure_views(r@) == body_failures(*b),
{
    let mut out: Vec<UserBatchFailure> = Vec::new();
    match &b.failed_users {
        Some(items) => {
            for i in 0..items.len()
                invariant
                    failure_views(out@) == failed_user_entries(items@.take(i as int)),
            {
                assert(items@.take(i + 1).drop_last() =~= items@.take(i as int));
                match items[i].wp_id {
                    Some(wp) => {
                        let reason = match &items[i].reason {
                            Some(r) => r.clone(),
                            None => "unknown".to_owned(),
                        };
                        out.push(UserBatchFailure { wp_id: wp, reason });
                        assert(failure_views(out@) =~= failed_user_entries(items@.take(i + 1)));
                    },
                    None => {},
                }
            }
            assert(items@.take(items.len() as int) =~= items@);
        },
        None => match &b.failed_wp_ids {
            Some(ids) => {
                for i in 0..ids.len()
                    invariant
                        failure_views(out@) == legacy_failed_entries(ids@.take(i as int)),
                {
                    assert(ids@.take(i + 1).drop_last() =~= ids@.take(i as int));
                    match ids[i] {
                        Some(wp) => {
                            out.push(
                                UserBatchFailure {
                                    wp_id: wp,
                                    reason: "unknown (legacy failedWpIds response)".to_owned(),
                                },
                            );
                            assert(failure_views(out@) =~= legacy_failed_entries(
                                ids@.take(i + 1),
                            ));
                        },
                        None => {},
                    }
                }
                assert(ids@.take(ids.len() as int) =~= ids@);
            },
            None => {
                assert(failure_views(out@) =~= Seq::<(i64, Seq<char>)>::empty());
            },
        },
    }
    out
}

/// What one bulk request of `chunk` contributes: a failed request or a non-2xx
/// response fails every user of the chunk; a 2xx response contributes the
/// successes and failures that its JSON reports (nothing when it is not JSON).
pub fn interpret_user_batch(chunk: &[User], reply: &BulkUsersReply) -> (r: BatchOutcome)
    ensures
        r.successes@ == batch_successes_spec(*reply),
        failure_views(r.failures@) == batch_failures_spec(chunk@, *reply),
        r.save_mapping == (*reply matches BulkUsersReply::Response { status, .. } && 200 <= status
            < 300),
{
    match reply {
        BulkUsersReply::Failed { message } => {
            BatchOutcome { successes: Vec::new(), failures: fail_all(chunk, message), save_mapping: false }
        },
        BulkUsersReply::Response { status, body, parsed } => {
            if !(200 <= *status && *status < 300) {
                let reason = http_reason_text(*status, body.as_str());
                return BatchOutcome {
                    successes: Vec::new(),
                    failures: fail_all(chunk, &reason),
                    save_mapping: false,
                };
            }
            match parsed {
                None => {
                    let failures: Vec<UserBatchFailure> = Vec::new();
                    assert(failure_views(failures@) =~= Seq::<(i64, Seq<char>)>::empty());
                    BatchOutcome { successes: Vec::new(), failures, save_mapping: true }
                },
                Some(b) => {
                    let successes = match &b.success_map {
                        Some(entries) => successes_of(entries),
                        None => Vec::new(),
                    };
                    BatchOutcome { successes, failures: failures_of(b), save_mapping: true }
                },
            }
        },
    }
}

// ---------------- accumulated result ----------------

/// `m` with each pair inserted in turn.
pub open spec fn insert_pairs(m: Map<i64, i64>, s: Seq<(i64, i64)>) -> Map<i64, i64>
    decreases s.len(),
{
    if s.len() == 0 {
        m
    } else {
        insert_pairs(m, s.drop_last()).insert(s.last().0, s.last().1)
    }
}

/// `m` with each failure's reason inserted in turn.
pub open spec fn insert_reasons(m: Map<i64, String>, s: Seq<UserBatchFailure>) -> Map<i64, String>
    decreases s.len(),
{
    if s.len() == 0 {
        m
    } else {
        insert_reasons(m, s.drop_last()).insert(s.last().wp_id, s.last().reason)
    }
}

/// Outcome of migrating the regular users.
#[derive(Debug, Clone)]
pub struct UserMigrationResult {
    pub success_map: HashMap<i64, i64>,
    pub failed_wp_ids: Vec<i64>,
    pub failure_reasons: HashMap<i64, String>,
    pub total: i32,
    pub succeeded: i32,
    pub failed: i32,
}

impl UserMigrationResult {
    /// An empty result for `total` users.
    pub fn new(total: usize) -> (r: Self)
        ensures
            r.success_map@ == Map::<i64, i64>::empty(),
            r.failed_wp_ids@.len() == 0,
            r.failure_reasons@ == Map::<i64, String>::empty(),
            r.total == total as i32,
            r.succeeded == 0,
            r.failed == 0,
    {
        UserMigrationResult {
            success_map: HashMap::new(),
            failed_wp_ids: Vec::new(),
            failure_reasons: HashMap::new(),
            total: total as i32,
            succeeded: 0,
            failed: 0,
        }
    }

    /// Adds a batch's successes, then its failures.
    pub fn absorb(&mut self, outcome: &BatchOutcome)
        requires
            old(self).succeeded + outcome.successes@.len() <= i32::MAX,
            old(self).failed + outcome.failures@.len() <= i32::MAX,
        ensures
            final(self).success_map@ == insert_pairs(old(self).success_map@, outcome.successes@),
            final(self).failed_wp_ids@ == old(self).failed_wp_ids@ + outcome.failures@.map_values(
                |f: UserBatchFailure| f.wp_id,
            ),
            final(self).failure_reasons@ == insert_reasons(
                old(self).failure_reasons@,
                outcome.failures@,
            ),
            final(self).total == old(self).total,
            final(self).succeeded == old(self).succeeded + outcome.successes@.len(),
            final(self).failed == old(self).failed + outcome.failures@.len(),
    {
        let n = outcome.successes.len();
        for i in 0..n
            invariant
                n == outcome.successes@.len(),
                old(self).succeeded + n <= i32::MAX,
                self.success_map@ == insert_pairs(
                    old(self).success_map@,
                    outcome.successes@.take(i as int),
                ),
                self.succeeded == old(self).succeeded + i,
                self.failed_wp_ids == old(self).failed_wp_ids,
                self.failure_reasons == old(self).failure_reasons,
                self.failed == old(self).failed,
                self.total == old(self).total,
        {
            let (wp, sid) = outcome.successes[i];
            self.success_map.insert(wp, sid);
            self.succeeded = self.succeeded + 1;
            assert(outcome.successes@.take(i + 1).drop_last() =~= outcome.successes@.take(i as int));
        }
        assert(outcome.successes@.take(n as int) =~= outcome.successes@);
        let m = outcome.failures.len();
        for j in 0..m
            invariant
                m == outcome.failures@.len(),
                old(self).failed + m <= i32::MAX,
                self.success_map@ == insert_pairs(old(self).success_map@, outcome.successes@),
                self.succeeded == old(self).succeeded + outcome.successes@.len(),
                self.failed_wp_ids@ == old(self).failed_wp_ids@ + outcome.failures@.take(
                    j as int,
                ).map_values(|f: UserBatchFailure| f.wp_id),
                self.failure_reasons@ == insert_reasons(
                    old(self).failure_reasons@,
                    outcome.failures@.take(j as int),
                ),
                self.failed == old(self).failed + j,
                self.total == old(self).total,
        {
            let f = &outcome.failures[j];
            self.failed_wp_ids.push(f.wp_id);
            self.failure_reasons.insert(f.wp_id, f.reason.clone());
            self.failed = self.failed + 1;
            assert(outcome.failures@.take(j + 1).drop_last() =~= outcome.failures@.take(j as int));
            assert(outcome.failures@.take(j + 1).map_values(|f: UserBatchFailure| f.wp_id)
                =~= outcome.failures@.take(j as int).map_values(|f: UserBatchFailure| f.wp_id).push(
                f.wp_id,
            ));
        }
        assert(outcome.failures@.take(m as int) =~= outcome.failures@);
    }
}


// ---------------- authors ----------------

/// Publication date given to every migrated author.
pub open spec fn author_published_at() -> Seq<char> {
    "2026-05-25T00:00:00Z"@
}

pub open spec fn author_image_spec(a: Author, mapping: Seq<(String, i64)>) -> Option<i64> {
    if a.image@.len() == 0 {
        None
    } else {
        assoc_get(mapping, a.image@)
    }
}

/// The body that creates one author, members in key order: the avatar's media id
/// (`Avtar`, as the Strapi schema spells it) when mapped, the name, the email
/// when not empty, and the fixed publication date.
pub open spec fn author_json_spec(a: Author, mapping: Seq<(String, i64)>) -> Seq<char> {
    let img = author_image_spec(a, mapping);
    json_object(
        seq![
            json_member(
                "data"@,
                json_object(
                    optional(img is Some, json_member("Avtar"@, json_int(img->0 as int))) + seq![
                        json_member("Name"@, json_string(a.username@)),
                    ] + optional(a.email@.len() > 0, json_member("email"@, json_string(a.email@)))
                        + seq![json_member("publishedAt"@, json_string(author_published_at()))],
                ),
            ),
        ],
    )
}

/// The body that creates `author` (see `author_json_spec`).
pub fn author_payload(author: &Author, mapping: &Vec<(String, i64)>) -> (r: String)
    ensures
        r@ == author_json_spec(*author, mapping@),
{
    let ghost img = author_image_spec(*author, mapping@);
    let image = if author.image.as_str().is_empty() {
        None
    } else {
        lookup_image(mapping, author.image.as_str())
    };
    assert(image == img);
    let mut m: Vec<Vec<char>> = Vec::new();
    match image {
        Some(id) => m.push(member("Avtar", int_text(id))),
        None => {},
    }
    m.push(member("Name", quote(author.username.as_str())));
    if !author.email.as_str().is_empty() {
        m.push(member("email", quote(author.email.as_str())));
    }
    m.push(member("publishedAt", quote("2026-05-25T00:00:00Z")));
    let ghost inner = optional(img is Some, json_member("Avtar"@, json_int(img->0 as int))) + seq![
        json_member("Name"@, json_string(author.username@)),
    ] + optional(author.email@.len() > 0, json_member("email"@, json_string(author.email@))) + seq![
        json_member("publishedAt"@, json_string(author_published_at())),
    ];
    assert(char_views(m@) =~= inner);
    let mut outer: Vec<Vec<char>> = Vec::new();
    outer.push(member("data", object(&m)));
    assert(char_views(outer@) =~= seq![json_member("data"@, json_object(inner))]);
    string_of(&object(&outer))
}

/// What creating one author returned.
#[derive(Debug)]
pub enum AuthorReply {
    /// No response: the error's text.
    Failed { message: String },
    /// An HTTP response; `id` is `None` when a 2xx body is not JSON, else the
    /// integer at `/data/id` if there is one.
    Response { status: u16, body: String, id: Option<Option<i64>> },
}

/// What one author contributes to the result.
#[derive(Debug, Clone, PartialEq, Eq)]
pub enum AuthorOutcome {
    Created(i64),
    Failed(String),
    /// A 2xx reply whose body is not JSON: neither counted nor recorded.
    Ignored,
}

pub open spec fn author_outcome_ok(reply: AuthorReply, r: AuthorOutcome) -> bool {
    match reply {
        AuthorReply::Failed { message } => r == AuthorOutcome::Failed(message),
        AuthorReply::Response { status, body, id } => if 200 <= status < 300 {
            match id {
                None => r is Ignored,
                Some(v) => {
                    let n = match v {
                        Some(x) => x,
                        None => 0,
                    };
                    if n > 0 {
                        r == AuthorOutcome::Created(n)
                    } else {
                        r matches AuthorOutcome::Failed(m) && m@ == "no id in response"@
                    }
                },
            }
        } else {
            r matches AuthorOutcome::Failed(m) && m@ == http_reason(status, body@)
        },
    }
}

/// What the creation of one author contributes: the created id when a 2xx reply
/// carries a positive `/data/id`, else a failure with its reason.
pub fn interpret_author_reply(reply: AuthorReply) -> (r: AuthorOutcome)
    ensures
        author_outcome_ok(reply, r),
{
    match reply {
        AuthorReply::Failed { message } => AuthorOutcome::Failed(message),
        AuthorReply::Response { status, body, id } => {
            if !(200 <= status && status < 300) {
                return AuthorOutcome::Failed(http_reason_text(status, body.as_str()));
            }
            match id {
                None => AuthorOutcome::Ignored,
                Some(v) => {
                    let n = match v {
                        Some(x) => x,
                        None => 0,
                    };
                    if n > 0 {
                        AuthorOutcome::Created(n)
                    } else {
                        AuthorOutcome::Failed("no id in response".to_owned())
                    }
                },
            }
        },
    }
}

/// Outcome of migrating the authors.
#[derive(Debug, Clone)]
pub struct AuthorMigrationResult {
    pub success_map: HashMap<i64, i64>,
    pub failed_wp_ids: Vec<i64>,
    pub failed_with_reasons: HashMap<i64, String>,
    pub total: i32,
    pub succeeded: i32,
    pub failed: i32,
}

impl AuthorMigrationResult {
    /// An empty result for `total` authors.
    pub fn new(total: usize) -> (r: Self)
        ensures
            r.success_map@ == Map::<i64, i64>::empty(),
            r.failed_wp_ids@.len() == 0,
            r.failed_with_reasons@ == Map::<i64, String>::empty(),
            r.total == total as i32,
            r.succeeded == 0,
            r.failed == 0,
    {
        AuthorMigrationResult {
            success_map: HashMap::new(),
            failed_wp_ids: Vec::new(),
            failed_with_reasons: HashMap::new(),
            total: total as i32,
            succeeded: 0,
            failed: 0,
        }
    }

    /// Records the outcome for the author `wp_id`.
    pub fn absorb(&mut self, wp_id: i64, outcome: AuthorOutcome)
        requires
            old(self).succeeded < i32::MAX,
            old(self).failed < i32::MAX,
        ensures
            final(self).total == old(self).total,
            match outcome {
                AuthorOutcome::Created(id) => {
                    &&& final(self).success_map@ == old(self).success_map@.insert(wp_id, id)
                    &&& final(self).succeeded == old(self).succeeded + 1
                    &&& final(self).failed_wp_ids == old(self).failed_wp_ids
                    &&& final(self).failed_with_reasons == old(self).failed_with_reasons
                    &&& final(self).failed == old(self).failed
                },
                AuthorOutcome::Failed(reason) => {
                    &&& final(self).success_map == old(self).success_map
                    &&& final(self).succeeded == old(self).succeeded
                    &&& final(self).failed_wp_ids@ == old(self).failed_wp_ids@.push(wp_id)
                    &&& final(self).failed_with_reasons@ == old(self).failed_with_reasons@.insert(
                        wp_id,
                        reason,
                    )
                    &&& final(self).failed == old(self).failed + 1
                },
                AuthorOutcome::Ignored => *final(self) == *old(self),
            },
    {
        match outcome {
            AuthorOutcome::Created(id) => {
                self.success_map.insert(wp_id, id);
                self.succeeded = self.succeeded + 1;
            },
            AuthorOutcome::Failed(reason) => {
                self.failed_wp_ids.push(wp_id);
                self.failed_with_reasons.insert(wp_id, reason);
                self.failed = self.failed + 1;
            },
            AuthorOutcome::Ignored => {},
        }
    }
}

// ---------------- reconciliation ----------------

/// The last user with WordPress id `wp` (as a map collected from the list keeps it).
pub open spec fn user_of(users: Seq<User>, wp: i64) -> Option<User>
    decreases users.len(),
{
    if users.len() == 0 {
        None
    } else if users.last().wp_id == wp {
        Some(users.last())
    } else {
        user_of(users.drop_last(), wp)
    }
}

/// Email and username of a known user.
pub open spec fn contact_of(users: Seq<User>, wp: i64) -> Option<(Seq<char>, Seq<char>)> {
    match user_of(users, wp) {
        Some(u) => Some((u.email@, u.username@)),
        None => None,
    }
}

/// The identifier a user is searched by: its email, else its username.
pub open spec fn ident_of(c: (Seq<char>, Seq<char>)) -> Seq<char> {
    if c.0.len() > 0 {
        c.0
    } else {
        c.1
    }
}

/// The distinct non-empty identifiers of the known users, in first-seen order.
pub open spec fn idents_of(contacts: Seq<Option<(Seq<char>, Seq<char>)>>) -> Seq<Seq<char>>
    decreases contacts.len(),
{
    if contacts.len() == 0 {
        Seq::empty()
    } else {
        let rest = idents_of(contacts.drop_last());
        match contacts.last() {
            Some(c) => if ident_of(c).len() == 0 || rest.contains(ident_of(c)) {
                rest
            } else {
                rest.push(ident_of(c))
            },
            None => rest,
        }
    }
}

/// The failed ids whose user has the (non-empty) email `ident`.
pub open spec fn email_wps(
    failed: Seq<i64>,
    contacts: Seq<Option<(Seq<char>, Seq<char>)>>,
    ident: Seq<char>,
) -> Seq<i64>
    decreases failed.len(),
{
    if failed.len() == 0 {
        Seq::empty()
    } else {
        let rest = email_wps(failed.drop_last(), contacts.drop_last(), ident);
        match contacts.last() {
            Some(c) => if c.0.len() > 0 && c.0 == ident {
                rest.push(failed.last())
            } else {
                rest
            },
            None => rest,
        }
    }
}

/// The failed ids whose user has no email and the username `ident`.
pub open spec fn username_wps(
    failed: Seq<i64>,
    contacts: Seq<Option<(Seq<char>, Seq<char>)>>,
    ident: Seq<char>,
) -> Seq<i64>
    decreases failed.len(),
{
    if failed.len() == 0 {
        Seq::empty()
    } else {
        let rest = username_wps(failed.drop_last(), contacts.drop_last(), ident);
        match contacts.last() {
            Some(c) => if c.0.len() == 0 && c.1 == ident {
                rest.push(failed.last())
            } else {
                rest
            },
            None => rest,
        }
    }
}

/// The failed ids an identifier of the reply stands for: those found by email,
/// else those found by username.
pub open spec fn wps_for(
    failed: Seq<i64>,
    contacts: Seq<Option<(Seq<char>, Seq<char>)>>,
    ident: Seq<char>,
) -> Seq<i64> {
    let e = email_wps(failed, contacts, ident);
    if e.len() > 0 {
        e
    } else {
        username_wps(failed, contacts, ident)
    }
}

/// The failed users and what is known of each, with the identifiers to search.
#[derive(Debug, Clone)]
pub struct ReconciliationPlan {
    pub failed: Vec<i64>,
    /// Per failed id (same order): the user's email and username, when known.
    pub contacts: Vec<Option<(String, String)>>,
    pub identifiers: Vec<String>,
}

pub open spec fn contact_view(c: Option<(String, String)>) -> Option<(Seq<char>, Seq<char>)> {
    match c {
        Some((e, u)) => Some((e@, u@)),
        None => None,
    }
}

impl ReconciliationPlan {
    pub open spec fn contacts_view(&self) -> Seq<Option<(Seq<char>, Seq<char>)>> {
        self.contacts@.map_values(|c: Option<(String, String)>| contact_view(c))
    }

    pub open spec fn wf(&self) -> bool {
        self.contacts@.len() == self.failed@.len()
    }
}

fn last_user(users: &[User], wp: i64) -> (r: Option<usize>)
    ensures
        match r {
            Some(k) => k < users@.len() && user_of(users@, wp) == Some(users@[k as int]),
            None => user_of(users@, wp) is None,
        },
{
    let mut i = users.len();
    assert(users@.take(i as int) =~= users@);
    while i > 0
        invariant
            i <= users@.len(),
            user_of(users@, wp) == user_of(users@.take(i as int), wp),
        decreases i,
    {
        assert(users@.take(i as int).drop_last() =~= users@.take(i - 1));
        if users[i - 1].wp_id == wp {
            return Some(i - 1);
        }
        i = i - 1;
    }
    None
}

fn contains_text(v: &Vec<String>, t: &Vec<char>) -> (r: bool)
    ensures
        r == v@.map_values(|s: String| s@).contains(t@),
{
    for i in 0..v.len()
        invariant
            forall|k: int| 0 <= k < i ==> v@[k]@ != t@,
    {
        let c = chars_of(v[i].as_str());
        if chars_eq(&c, t) {
            assert(v@.map_values(|s: String| s@)[i as int] == t@);
            return true;
        }
    }
    proof {
        let vv = v@.map_values(|s: String| s@);
        if vv.contains(t@) {
            let k = choose|k: int| 0 <= k < vv.len() && vv[k] == t@;
            assert(v@[k]@ == t@);
        }
    }
    false
}

/// Resolves each failed id to its user (the last one listed with that id) and
/// collects the distinct identifiers to search for.
pub fn plan_reconciliation(failed_wp_ids: &[i64], all_users: &[User]) -> (r: ReconciliationPlan)
    ensures
        r.wf(),
        r.failed@ == failed_wp_ids@,
        r.contacts_view() == failed_wp_ids@.map_values(|wp: i64| contact_of(all_users@, wp)),
        r.identifiers@.map_values(|s: String| s@) == idents_of(r.contacts_view()),
{
    let mut failed: Vec<i64> = Vec::new();
    let mut contacts: Vec<Option<(String, String)>> = Vec::new();
    let mut identifiers: Vec<String> = Vec::new();
    for i in 0..failed_wp_ids.len()
        invariant
            failed@ == failed_wp_ids@.take(i as int),
            contacts@.len() == i,
            contacts@.map_values(|c: Option<(String, String)>| contact_view(c))
                == failed_wp_ids@.take(i as int).map_values(|wp: i64| contact_of(all_users@, wp)),
            identifiers@.map_values(|s: String| s@) == idents_of(
                contacts@.map_values(|c: Option<(String, String)>| contact_view(c)),
            ),
    {
        let wp = failed_wp_ids[i];
        let ghost cv_before = contacts@.map_values(|c: Option<(String, String)>| contact_view(c));
        let contact = match last_user(all_users, wp) {
            Some(k) => Some((all_users[k].email.clone(), all_users[k].username.clone())),
            None => None,
        };
        assert(contact_view(contact) == contact_of(all_users@, wp));
        match &contact {
            Some((e, u)) => {
                let ident = if e.as_str().is_empty() {
                    chars_of(u.as_str())
                } else {
                    chars_of(e.as_str())
                };
                if ident.len() > 0 && !contains_text(&identifiers, &ident) {
                    let ghost before = identifiers@;
                    identifiers.push(string_of(&ident));
                    assert(identifiers@.map_values(|s: String| s@) =~= before.map_values(
                        |s: String| s@,
                    ).push(ident@));
                }
            },
            None => {},
        }
        failed.push(wp);
        contacts.push(contact);
        assert(contacts@.map_values(|c: Option<(String, String)>| contact_view(c)) =~= cv_before.push(
            contact_view(contact),
        ));
        assert(contacts@.map_values(|c: Option<(String, String)>| contact_view(c)).drop_last()
            =~= cv_before);
        assert(failed_wp_ids@.take(i + 1).map_values(|wp: i64| contact_of(all_users@, wp))
            =~= failed_wp_ids@.take(i as int).map_values(|wp: i64| contact_of(all_users@, wp)).push(
            contact_of(all_users@, wp),
        ));
        assert(failed_wp_ids@.take(i + 1) =~= failed_wp_ids@.take(i as int).push(wp));
    }
    assert(failed_wp_ids@.take(failed_wp_ids.len() as int) =~= failed_wp_ids@);
    ReconciliationPlan { failed, contacts, identifiers }
}


proof fn lemma_wps_len(
    failed: Seq<i64>,
    contacts: Seq<Option<(Seq<char>, Seq<char>)>>,
    ident: Seq<char>,
)
    ensures
        email_wps(failed, contacts, ident).len() <= failed.len(),
        username_wps(failed, contacts, ident).len() <= failed.len(),
        wps_for(failed, contacts, ident).len() <= failed.len(),
    decreases failed.len(),
{
    if failed.len() > 0 {
        lemma_wps_len(failed.drop_last(), contacts.drop_last(), ident);
    }
}

/// The failed ids that `ident` stands for (see `wps_for`).
fn matching_wps(plan: &ReconciliationPlan, ident: &Vec<char>) -> (r: Vec<i64>)
    requires
        plan.wf(),
    ensures
        r@ == wps_for(plan.failed@, plan.contacts_view(), ident@),
{
    let ghost cv = plan.contacts_view();
    let mut by_email: Vec<i64> = Vec::new();
    let mut by_name: Vec<i64> = Vec::new();
    for i in 0..plan.failed.len()
        invariant
            plan.wf(),
            cv == plan.contacts_view(),
            by_email@ == email_wps(plan.failed@.take(i as int), cv.take(i as int), ident@),
            by_name@ == username_wps(plan.failed@.take(i as int), cv.take(i as int), ident@),
    {
        assert(plan.failed@.take(i + 1).drop_last() =~= plan.failed@.take(i as int));
        assert(cv.take(i + 1).drop_last() =~= cv.take(i as int));
        assert(cv.take(i + 1).last() == contact_view(plan.contacts@[i as int]));
        match &plan.contacts[i] {
            Some((e, u)) => {
                let ev = chars_of(e.as_str());
                let uv = chars_of(u.as_str());
                if ev.len() > 0 && chars_eq(&ev, ident) {
                    by_email.push(plan.failed[i]);
                }
                if ev.len() == 0 && chars_eq(&uv, ident) {
                    by_name.push(plan.failed[i]);
                }
            },
            None => {},
        }
    }
    assert(plan.failed@.take(plan.failed.len() as int) =~= plan.failed@);
    assert(cv.take(plan.failed.len() as int) =~= cv);
    if by_email.len() > 0 {
        by_email
    } else {
        by_name
    }
}

/// One failed user's reconciliation outcome.
#[derive(Debug, Clone)]
pub struct ReconciliationResult {
    pub wp_id: i64,
    pub recovered_strapi_id: i64,
    /// `email`, `username` (as the reply says), or `not_found`.
    pub found_by: String,
    pub success: bool,
    pub reason: String,
}

/// Totals and details of a reconciliation.
#[derive(Debug, Clone)]
pub struct ReconciliationSummary {
    pub total_attempted: i32,
    pub total_recovered: i32,
    pub total_not_found: i32,
    pub results: Vec<ReconciliationResult>,
    pub recovered_mappings: HashMap<i64, i64>,
}

/// An entry of the reply's `foundUsers`: `identifier`, `user.id` and `foundBy`
/// where they are a string, an integer and a string.
#[derive(Debug, Clone)]
pub struct FoundUser {
    pub identifier: Option<String>,
    pub user_id: Option<i64>,
    pub found_by: Option<String>,
}

/// An entry of the reply's `notFound`: `identifier` and `reason` where they are strings.
#[derive(Debug, Clone)]
pub struct NotFoundUser {
    pub identifier: Option<String>,
    pub reason: Option<String>,
}

pub open spec fn opt_text(o: Option<String>, dflt: Seq<char>) -> Seq<char> {
    match o {
        Some(s) => s@,
        None => dflt,
    }
}

pub open spec fn result_view(r: ReconciliationResult) -> (i64, i64, Seq<char>, bool, Seq<char>) {
    (r.wp_id, r.recovered_strapi_id, r.found_by@, r.success, r.reason@)
}

pub open spec fn result_views(s: Seq<ReconciliationResult>) -> Seq<
    (i64, i64, Seq<char>, bool, Seq<char>),
> {
    s.map_values(|r: ReconciliationResult| result_view(r))
}

/// `m` with every id of `wps` mapped to `v`.
pub open spec fn insert_same(m: Map<i64, i64>, wps: Seq<i64>, v: i64) -> Map<i64, i64>
    decreases wps.len(),
{
    if wps.len() == 0 {
        m
    } else {
        insert_same(m, wps.drop_last(), v).insert(wps.last(), v)
    }
}

impl ReconciliationSummary {
    /// An empty summary for `attempted` failed users.
    pub fn new(attempted: usize) -> (r: Self)
        ensures
            r.total_attempted == attempted as i32,
            r.total_recovered == 0,
            r.total_not_found == 0,
            r.results@.len() == 0,
            r.recovered_mappings@ == Map::<i64, i64>::empty(),
    {
        ReconciliationSummary {
            total_attempted: attempted as i32,
            total_recovered: 0,
            total_not_found: 0,
            results: Vec::new(),
            recovered_mappings: HashMap::new(),
        }
    }

    /// Takes one `foundUsers` entry: an entry without an identifier or a user id
    /// (or with id 0) is skipped; otherwise every failed user the identifier
    /// stands for is recovered as that Strapi user.
    pub fn apply_found(&mut self, plan: &ReconciliationPlan, item: &FoundUser)
        requires
            plan.wf(),
            old(self).total_recovered + plan.failed@.len() <= i32::MAX,
        ensures
            ({
                let ident = opt_text(item.identifier, Seq::empty());
                let sid = match item.user_id {
                    Some(x) => x,
                    None => 0,
                };
                if sid == 0 || ident.len() == 0 {
                    *final(self) == *old(self)
                } else {
                    let wps = wps_for(plan.failed@, plan.contacts_view(), ident);
                    let by = opt_text(item.found_by, "unknown"@);
                    &&& final(self).recovered_mappings@ == insert_same(
                        old(self).recovered_mappings@,
                        wps,
                        sid,
                    )
                    &&& result_views(final(self).results@) == result_views(old(self).results@)
                        + wps.map_values(|wp: i64| (wp, sid, by, true, Seq::<char>::empty()))
                    &&& final(self).total_recovered == old(self).total_recovered + wps.len()
                    &&& final(self).total_attempted == old(self).total_attempted
                    &&& final(self).total_not_found == old(self).total_not_found
                }
            }),
    {
        let ident = match &item.identifier {
            Some(s) => chars_of(s.as_str()),
            None => Vec::new(),
        };
        let sid = match item.user_id {
            Some(x) => x,
            None => 0,
        };
        if sid == 0 || ident.len() == 0 {
            return;
        }
        let found_by = match &item.found_by {
            Some(s) => s.clone(),
            None => "unknown".to_owned(),
        };
        let wps = matching_wps(plan, &ident);
        proof {
            lemma_wps_len(plan.failed@, plan.contacts_view(), ident@);
        }
        let ghost by = found_by@;
        for j in 0..wps.len()
            invariant
                found_by@ == by,
                wps@.len() <= plan.failed@.len(),
                old(self).total_recovered + plan.failed@.len() <= i32::MAX,
                self.recovered_mappings@ == insert_same(
                    old(self).recovered_mappings@,
                    wps@.take(j as int),
                    sid,
                ),
                result_views(self.results@) == result_views(old(self).results@) + wps@.take(
                    j as int,
                ).map_values(|wp: i64| (wp, sid, by, true, Seq::<char>::empty())),
                self.total_recovered == old(self).total_recovered + j,
                self.total_attempted == old(self).total_attempted,
                self.total_not_found == old(self).total_not_found,
        {
            let wp = wps[j];
            let ghost before = self.results@;
            self.recovered_mappings.insert(wp, sid);
            let r = ReconciliationResult {
                wp_id: wp,
                recovered_strapi_id: sid,
                found_by: found_by.clone(),
                success: true,
                reason: String::new(),
            };
            self.results.push(r);
            self.total_recovered = self.total_recovered + 1;
            assert(wps@.take(j + 1).drop_last() =~= wps@.take(j as int));
            assert(result_views(self.results@) =~= result_views(before).push(result_view(r)));
            assert(wps@.take(j + 1).map_values(|wp: i64| (wp, sid, by, true, Seq::<char>::empty()))
                =~= wps@.take(j as int).map_values(
                |wp: i64| (wp, sid, by, true, Seq::<char>::empty()),
            ).push((wp, sid, by, true, Seq::<char>::empty())));
        }
        assert(wps@.take(wps.len() as int) =~= wps@);
    }

    /// Takes one `notFound` entry: an entry without an identifier is skipped;
    /// otherwise every failed user the identifier stands for gets a not-found
    /// result with the entry's reason.
    pub fn apply_not_found(&mut self, plan: &ReconciliationPlan, item: &NotFoundUser)
        requires
            plan.wf(),
            old(self).total_not_found + plan.failed@.len() <= i32::MAX,
        ensures
            ({
                let ident = opt_text(item.identifier, Seq::empty());
                if ident.len() == 0 {
                    *final(self) == *old(self)
                } else {
                    let wps = wps_for(plan.failed@, plan.contacts_view(), ident);
                    let reason = opt_text(item.reason, "Not found"@);
                    &&& final(self).recovered_mappings == old(self).recovered_mappings
                    &&& result_views(final(self).results@) == result_views(old(self).results@)
                        + wps.map_values(|wp: i64| (wp, 0i64, "not_found"@, false, reason))
                    &&& final(self).total_not_found == old(self).total_not_found + wps.len()
                    &&& final(self).total_attempted == old(self).total_attempted
                    &&& final(self).total_recovered == old(self).total_recovered
                }
            }),
    {
        let ident = match &item.identifier {
            Some(s) => chars_of(s.as_str()),
            None => Vec::new(),
        };
        if ident.len() == 0 {
            return;
        }
        let reason = match &item.reason {
            Some(s) => s.clone(),
            None => "Not found".to_owned(),
        };
        let wps = matching_wps(plan, &ident);
        proof {
            lemma_wps_len(plan.failed@, plan.contacts_view(), ident@);
        }
        let ghost rs = reason@;
        let not_found = "not_found";
        for j in 0..wps.len()
            invariant
                reason@ == rs,
                not_found@ == "not_found"@,
                wps@.len() <= plan.failed@.len(),
                old(self).total_not_found + plan.failed@.len() <= i32::MAX,
                self.recovered_mappings == old(self).recovered_mappings,
                result_views(self.results@) == result_views(old(self).results@) + wps@.take(
                    j as int,
                ).map_values(|wp: i64| (wp, 0i64, "not_found"@, false, rs)),
                self.total_not_found == old(self).total_not_found + j,
                self.total_attempted == old(self).total_attempted,
                self.total_recovered == old(self).total_recovered,
        {
            let wp = wps[j];
            let ghost before = self.results@;
            let r = ReconciliationResult {
                wp_id: wp,
                recovered_strapi_id: 0,
                found_by: not_found.to_owned(),
                success: false,
                reason: reason.clone(),
            };
            self.results.push(r);
            self.total_not_found = self.total_not_found + 1;
            assert(result_views(self.results@) =~= result_views(before).push(result_view(r)));
            assert(wps@.take(j + 1).map_values(|wp: i64| (wp, 0i64, "not_found"@, false, rs))
                =~= wps@.take(j as int).map_values(
                |wp: i64| (wp, 0i64, "not_found"@, false, rs),
            ).push((wp, 0i64, "not_found"@, false, rs)));
        }
        assert(wps@.take(wps.len() as int) =~= wps@);
    }
}


// ---------------- batching ----------------

/// The `k`-th batch of `n` users in batches of `size` (at least 1): positions
/// `[k*size, min((k+1)*size, n))`.
pub open spec fn batch_range(n: nat, size: nat, k: int) -> (int, int) {
    let s = if size == 0 {
        1
    } else {
        size as int
    };
    (k * s, if (k + 1) * s <= n {
        (k + 1) * s
    } else {
        n as int
    })
}

/// Position ranges of the batches of a bulk migration of `n` users: consecutive
/// runs of `batch_size` (a size of 0 counts as 1), the last one possibly shorter.
pub fn batch_ranges(n: usize, batch_size: usize) -> (r: Vec<(usize, usize)>)
    ensures
        forall|k: int|
            0 <= k < r@.len() ==> (#[trigger] r@[k]).0 as int == batch_range(
                n as nat,
                batch_size as nat,
                k,
            ).0 && r@[k].1 as int == batch_range(n as nat, batch_size as nat, k).1,
        r@.len() > 0 ==> r@.last().1 == n,
        r@.len() == 0 <==> n == 0,
        forall|k: int| 0 <= k < r@.len() ==> (#[trigger] r@[k]).0 < r@[k].1,
{
    let size = if batch_size == 0 {
        1
    } else {
        batch_size
    };
    let mut out: Vec<(usize, usize)> = Vec::new();
    let mut from: usize = 0;
    assert(out@.len() * size == 0) by (nonlinear_arith)
        requires
            out@.len() == 0,
    ;
    while from < n
        invariant
            from <= n,
            size >= 1,
            size as int == (if batch_size == 0 {
                1
            } else {
                batch_size as int
            }),
            from < n ==> from as int == out@.len() * size,
            out@.len() > 0 ==> out@.last().1 == from,
            out@.len() == 0 ==> from == 0,
            forall|k: int|
                0 <= k < out@.len() ==> (#[trigger] out@[k]).0 as int == batch_range(
                    n as nat,
                    batch_size as nat,
                    k,
                ).0 && out@[k].1 as int == batch_range(n as nat, batch_size as nat, k).1,
            forall|k: int| 0 <= k < out@.len() ==> (#[trigger] out@[k]).0 < out@[k].1,
        decreases n - from,
    {
        let to = if n - from > size {
            from + size
        } else {
            n
        };
        proof {
            let k = out@.len() as int;
            assert(from as int == k * size);
            assert((k + 1) * size == k * size + size) by (nonlinear_arith);
        }
        out.push((from, to));
        from = to;
    }
    out
}


// ---------------- failure reports ----------------

/// One line of a failure report: the user's identity as listed (empty when the
/// user is not in the batch) and the reason.
#[derive(Debug, Clone)]
pub struct FailureRecord {
    pub wp_id: i64,
    pub username: String,
    pub email: String,
    pub slug: String,
    pub reason: String,
}

pub open spec fn record_view(r: FailureRecord) -> (i64, Seq<char>, Seq<char>, Seq<char>, Seq<char>) {
    (r.wp_id, r.username@, r.email@, r.slug@, r.reason@)
}

/// The report line of a batch failure, with the user looked up in the batch
/// (the last user listed with that id).
pub open spec fn user_record_spec(chunk: Seq<User>, f: UserBatchFailure) -> (i64, Seq<char>, Seq<char>, Seq<char>, Seq<char>) {
    match user_of(chunk, f.wp_id) {
        Some(u) => (f.wp_id, u.username@, u.email@, u.slug@, f.reason@),
        None => (f.wp_id, Seq::empty(), Seq::empty(), Seq::empty(), f.reason@),
    }
}

/// Report lines of a batch's failures, in failure order.
pub fn user_failure_records(chunk: &[User], failures: &[UserBatchFailure]) -> (r: Vec<FailureRecord>)
    ensures
        r@.len() == failures@.len(),
        forall|i: int| 0 <= i < r@.len() ==> record_view(#[trigger] r@[i]) == user_record_spec(chunk@, failures@[i]),
{
    let mut out: Vec<FailureRecord> = Vec::new();
    for i in 0..failures.len()
        invariant
            out@.len() == i,
            forall|k: int| 0 <= k < i ==> record_view(#[trigger] out@[k]) == user_record_spec(chunk@, failures@[k]),
    {
        let f = &failures[i];
        let rec = match last_user(chunk, f.wp_id) {
            Some(k) => FailureRecord {
                wp_id: f.wp_id,
                username: chunk[k].username.clone(),
                email: chunk[k].email.clone(),
                slug: chunk[k].slug.clone(),
                reason: f.reason.clone(),
            },
            None => FailureRecord {
                wp_id: f.wp_id,
                username: String::new(),
                email: String::new(),
                slug: String::new(),
                reason: f.reason.clone(),
            },
        };
        out.push(rec);
    }
    out
}

/// Report lines of the failed authors: one per listed author whose id failed, in
/// listing order, with its reason.
pub open spec fn author_records_spec(authors: Seq<Author>, failures: Map<i64, String>) -> Seq<
    (i64, Seq<char>, Seq<char>, Seq<char>, Seq<char>),
>
    decreases authors.len(),
{
    if authors.len() == 0 {
        Seq::empty()
    } else {
        let rest = author_records_spec(authors.drop_last(), failures);
        let a = authors.last();
        if failures.contains_key(a.wp_id) {
            rest.push((a.wp_id, a.username@, a.email@, a.slug@, failures[a.wp_id]@))
        } else {
            rest
        }
    }
}

pub fn author_failure_records(authors: &[Author], failures: &HashMap<i64, String>) -> (r: Vec<FailureRecord>)
    ensures
        r@.map_values(|x: FailureRecord| record_view(x)) == author_records_spec(authors@, failures@),
{
    let mut out: Vec<FailureRecord> = Vec::new();
    for i in 0..authors.len()
        invariant
            out@.map_values(|x: FailureRecord| record_view(x)) == author_records_spec(
                authors@.take(i as int),
                failures@,
            ),
    {
        assert(authors@.take(i + 1).drop_last() =~= authors@.take(i as int));
        let a = &authors[i];
        match failures.get(&a.wp_id) {
            Some(reason) => {
                let ghost before = out@;
                let rec = FailureRecord {
                    wp_id: a.wp_id,
                    username: a.username.clone(),
                    email: a.email.clone(),
                    slug: a.slug.clone(),
                    reason: reason.clone(),
                };
                out.push(rec);
                assert(out@.map_values(|x: FailureRecord| record_view(x)) =~= before.map_values(
                    |x: FailureRecord| record_view(x),
                ).push(record_view(rec)));
            },
            None => {},
        }
    }
    assert(authors@.take(authors.len() as int) =~= authors@);
    out
}

/// Whether a failed-id entry of the report (when an integer) was recovered.
pub fn is_recovered(id: Option<i64>, recovered: &[i64]) -> (r: bool)
    ensures
        r == (id matches Some(x) && recovered@.contains(x)),
{
    match id {
        Some(x) => {
            for i in 0..recovered.len()
                invariant
                    id == Some(x),
                    forall|k: int| 0 <= k < i ==> recovered@[k] != x,
            {
                if recovered[i] == x {
                    assert(recovered@[i as int] == x);
                    return true;
                }
            }
            false
        },
        None => false,
    }
}

/// Whether a failure-reason key of the report names a recovered id.
pub fn reason_key_recovered(key: &str, recovered: &[i64]) -> (r: bool)
    ensures
        r == (parse_i64_spec(key@) matches Some(x) && recovered@.contains(x)),
{
    let k = chars_of(key);
    is_recovered(parse_i64(&k), recovered)
}

} // verus!
