//! Strapi v5 client logic: authorization headers, endpoint URLs, the
//! splitting of media uploads into size-bounded batches, and the
//! interpretation of entity-creation responses. The HTTP exchange itself is
//! performed by the caller with the values computed here.
use std::collections::HashMap;

use vstd::prelude::*;

use crate::config::Config;
use crate::http::HttpResponse;
use crate::json::{char_views, json_member, json_object, json_string, json_string_array, member, object, quote, string_array};
use crate::error::{lowercase, str_to_lowercase};
use crate::text::{
    chars_of, contains_seq, nat_digits, u64_digits, contains_str, extend_chars, extend_str, int_decimal, i64_decimal,
    starts_with_seq, starts_with_str, string_of, trim_end_char_seq, trim_end_matches_char, trim_seq,
    trim_str,
};

verus! {

broadcast use vstd::std_specs::hash::group_hash_axioms;

#[derive(Debug, Clone)]
pub struct MediaUploadItem {
    pub block_index: i32,
    pub file_name: String,
    pub mime_type: String,
    pub data: Vec<u8>,
}

#[derive(Debug, Clone)]
pub struct UploadedMedia {
    pub id: i64,
    pub url: String,
}

#[derive(Debug, Clone)]
pub struct StrapiEntityResult {
    pub id: i64,
    pub document_id: String,
    pub name: String,
    pub slug: String,
}

/// Bytes counted per file on top of its data when sizing an upload batch.
pub const PER_FILE_OVERHEAD: usize = 2048;

/// Batching state over item sizes: the batches so far (positions of items) and
/// the byte count of the last one, or the position of an item too large for
/// any batch.
pub open spec fn batch_state(sizes: Seq<nat>, max: nat) -> Result<(Seq<Seq<int>>, nat), int>
    decreases sizes.len(),
{
    if sizes.len() == 0 {
        Ok((seq![Seq::<int>::empty()], 0))
    } else {
        match batch_state(sizes.drop_last(), max) {
            Err(i) => Err(i),
            Ok((batches, cur)) => {
                let i = sizes.len() - 1;
                let item = sizes.last() + PER_FILE_OVERHEAD;
                if item > max {
                    Err(i)
                } else if cur + item > max && batches.last().len() > 0 {
                    Ok((batches.push(seq![i]), item as nat))
                } else {
                    Ok((batches.update(batches.len() - 1, batches.last().push(i)), (cur + item) as nat))
                }
            },
        }
    }
}

pub open spec fn item_sizes(items: Seq<MediaUploadItem>) -> Seq<nat> {
    items.map_values(|m: MediaUploadItem| m.data@.len())
}

/// Abstract contents of an entity result.
pub open spec fn entity_view(e: StrapiEntityResult) -> (i64, Seq<char>, Seq<char>, Seq<char>) {
    (e.id, e.document_id@, e.name@, e.slug@)
}

/// Fields of a successful entity-creation response (Strapi v5 flat shape or
/// v4 `attributes` shape), as found in its `data` object (or the top level).
#[derive(Debug, Clone)]
pub struct EntityFields {
    pub id: Option<i64>,
    pub name: Option<String>,
    pub attributes_name: Option<String>,
    pub slug: Option<String>,
    pub attributes_slug: Option<String>,
    pub document_id: Option<String>,
    pub attributes_document_id: Option<String>,
}

/// What an entity-creation exchange turned out to be.
#[derive(Debug, Clone)]
pub enum EntityResponse {
    /// A non-2xx answer, with `error.message` when the body carried one.
    Failed { status: u16, body: String, error_message: Option<String> },
    /// A 2xx answer with an empty (blank) body.
    EmptyBody,
    /// A 2xx answer whose body is not JSON.
    Unparsable { body: String },
    /// A 2xx answer with the fields found in its JSON body.
    Created(EntityFields),
}

/// A non-2xx reply fails with its status, body and JSON `error.message`; a 2xx
/// reply whose body is blank (only whitespace) has no content; a 2xx body that
/// is not JSON is unparsable; otherwise the entity was created with the fields
/// read from its JSON.
pub open spec fn entity_response_spec(
    status: u16,
    body: String,
    error_message: Option<String>,
    fields: Option<EntityFields>,
) -> EntityResponse {
    if !(200 <= status < 300) {
        EntityResponse::Failed { status, body, error_message }
    } else if trim_seq(body@).len() == 0 {
        EntityResponse::EmptyBody
    } else {
        match fields {
            None => EntityResponse::Unparsable { body },
            Some(f) => EntityResponse::Created(f),
        }
    }
}

/// Why an entity could not be created.
#[derive(Debug, Clone)]
pub enum EntityError {
    /// `create_entity: HTTP <status>: <body>`.
    Http { status: u16, body: String },
    /// The success body was not JSON.
    Parse { body: String },
}

/// The error text of an entity that could not be created.
pub open spec fn entity_error_text(e: EntityError) -> Seq<char> {
    match e {
        EntityError::Http { status, body } => "create_entity: HTTP "@ + nat_digits(status as nat)
            + ": "@ + body@,
        EntityError::Parse { body } => "parse_created_entity body: "@ + body@,
    }
}

impl EntityError {
    /// The error text (see `entity_error_text`).
    pub fn message(&self) -> (r: String)
        ensures
            r@ == entity_error_text(*self),
    {
        match self {
            EntityError::Http { status, body } => {
                let mut v = chars_of("create_entity: HTTP ");
                let d = u64_digits(*status as u64);
                extend_chars(&mut v, &d);
                extend_str(&mut v, ": ");
                extend_str(&mut v, body.as_str());
                string_of(&v)
            },
            EntityError::Parse { body } => {
                let mut v = chars_of("parse_created_entity body: ");
                extend_str(&mut v, body.as_str());
                string_of(&v)
            },
        }
    }
}

pub open spec fn opt_or(first: Option<String>, second: Option<String>, dflt: Seq<char>) -> Seq<char> {
    match first {
        Some(s) => s@,
        None => match second {
            Some(s) => s@,
            None => dflt,
        },
    }
}

/// Entity result of a creation exchange for `name`/`slug`: a duplicate (an error
/// message mentioning "unique") or an empty success body yields id -1 with the
/// slug as document id; a JSON body yields its fields, falling back to the
/// requested name and slug, id -1, and the slug as document id.
pub open spec fn entity_result_spec(
    resp: EntityResponse,
    name: Seq<char>,
    slug: Seq<char>,
) -> Result<(i64, Seq<char>, Seq<char>, Seq<char>), EntityError> {
    match resp {
        EntityResponse::Failed { status, body, error_message } => match error_message {
            Some(m) => if contains_seq(lowercase(m@), "unique"@) {
                Ok((-1i64, slug, name, slug))
            } else {
                Err(EntityError::Http { status, body })
            },
            None => Err(EntityError::Http { status, body }),
        },
        EntityResponse::EmptyBody => Ok((-1i64, slug, name, slug)),
        EntityResponse::Unparsable { body } => Err(EntityError::Parse { body }),
        EntityResponse::Created(f) => {
            let out_name = opt_or(f.name, f.attributes_name, name);
            let out_slug = opt_or(f.slug, f.attributes_slug, slug);
            let id = match f.id {
                Some(i) => i,
                None => -1i64,
            };
            Ok((id, opt_or(f.document_id, f.attributes_document_id, out_slug), out_name, out_slug))
        },
    }
}

/// `<base without trailing '/'>` + (`/` unless the endpoint starts with one) + endpoint.
pub open spec fn api_url_spec(base: Seq<char>, endpoint: Seq<char>) -> Seq<char> {
    let b = trim_end_char_seq(base, '/');
    if starts_with_seq(endpoint, "/"@) {
        b + endpoint
    } else {
        b + "/"@ + endpoint
    }
}

/// Absolute URLs are kept; relative ones are joined to the base.
pub open spec fn absolute_url_spec(base: Seq<char>, candidate: Seq<char>) -> Seq<char> {
    if starts_with_seq(candidate, "http://"@) || starts_with_seq(candidate, "https://"@) {
        candidate
    } else {
        let b = trim_end_char_seq(base, '/');
        if starts_with_seq(candidate, "/"@) {
            b + candidate
        } else {
            b + "/"@ + candidate
        }
    }
}

/// Headers of a request: a bearer token when there is one, then the JSON
/// content type when asked for.
pub open spec fn headers_spec(token: Seq<char>, content_json: bool) -> Seq<Seq<char>> {
    let auth = if token.len() > 0 {
        seq!["Authorization: Bearer "@ + token]
    } else {
        Seq::empty()
    };
    if content_json {
        auth.push("Content-Type: application/json"@)
    } else {
        auth
    }
}

/// The token of the `/migration/*` routes: the migration token when set, else
/// the API token.
pub open spec fn migration_token_spec(cfg: Config) -> Seq<char> {
    if cfg.migration_token@.len() > 0 {
        cfg.migration_token@
    } else {
        cfg.token@
    }
}

proof fn lemma_batch_err_persists(sizes: Seq<nat>, max: nat, k: int)
    requires
        0 <= k <= sizes.len(),
        batch_state(sizes.take(k), max) is Err,
    ensures
        batch_state(sizes, max) == batch_state(sizes.take(k), max),
    decreases sizes.len() - k,
{
    if k < sizes.len() {
        assert(sizes.take(k + 1).drop_last() =~= sizes.take(k));
        lemma_batch_err_persists(sizes, max, k + 1);
    } else {
        assert(sizes.take(k) =~= sizes);
    }
}

/// Block index -> `dry-run://<file name>`, later items winning.
pub open spec fn dry_run_map_spec(items: Seq<MediaUploadItem>) -> Map<i32, Seq<char>>
    decreases items.len(),
{
    if items.len() == 0 {
        Map::empty()
    } else {
        dry_run_map_spec(items.drop_last()).insert(
            items.last().block_index,
            "dry-run://"@ + items.last().file_name@,
        )
    }
}

/// What the upload route returned for a single file: the HTTP status and body,
/// and, when the body is JSON, per element of its array the `id` and `url`
/// (`Some(None)` when the JSON is not an array).
#[derive(Debug, Clone)]
pub struct UploadReply {
    pub status: u16,
    pub body: String,
    pub entries: Option<Option<Vec<(Option<i64>, Option<String>)>>>,
}

/// The uploaded media of a single-file upload, or the error it fails with.
pub open spec fn uploaded_media_spec(base: Seq<char>, reply: UploadReply) -> Result<(i64, Seq<char>), Seq<char>> {
    if !(200 <= reply.status < 300) {
        Err("upload_media: HTTP "@ + nat_digits(reply.status as nat) + ": "@ + reply.body@)
    } else {
        match reply.entries {
            None => Err("parse upload_media response: "@ + reply.body@),
            Some(None) => Err("upload_media: not an array"@),
            Some(Some(v)) => if v@.len() == 0 {
                Err("upload_media: empty response"@)
            } else {
                match v@[0] {
                    (None, _) => Err("missing id"@),
                    (Some(_), None) => Err("missing url"@),
                    (Some(id), Some(u)) => Ok((id, absolute_url_spec(base, u@))),
                }
            },
        }
    }
}

/// What the upload route returned for a batch of avatars: the status and body,
/// and the body's JSON as per element the `id` when an integer (`Ok(None)` when
/// not an array, `Err` with the parser's message when not JSON).
#[derive(Debug)]
pub struct UserImagesReply {
    pub status: u16,
    pub body: String,
    pub ids: Result<Option<Vec<Option<i64>>>, String>,
}

/// The image ids paired with the returned media ids, in order, skipping entries
/// without an integer id.
pub open spec fn id_pairs(image_ids: Seq<String>, ids: Seq<Option<i64>>) -> Seq<(Seq<char>, i64)>
    decreases ids.len(),
{
    if ids.len() == 0 || image_ids.len() != ids.len() {
        Seq::empty()
    } else {
        let rest = id_pairs(image_ids.drop_last(), ids.drop_last());
        match ids.last() {
            Some(id) => rest.push((image_ids.last()@, id)),
            None => rest,
        }
    }
}

pub open spec fn user_images_spec(image_ids: Seq<String>, reply: UserImagesReply) -> Result<Seq<(Seq<char>, i64)>, Seq<char>> {
    if !(200 <= reply.status < 300) {
        Err("upload_user_images_batch: HTTP "@ + nat_digits(reply.status as nat) + ": "@ + reply.body@)
    } else {
        match reply.ids {
            Err(m) => Err(m@),
            Ok(None) => Err("upload_user_images_batch: not an array"@),
            Ok(Some(v)) => if v@.len() != image_ids.len() {
                Err("upload_user_images_batch: response size mismatch"@)
            } else {
                Ok(id_pairs(image_ids, v@))
            },
        }
    }
}

/// `{"data":{"Name":..,"Slug":..}}`: the body that creates a performer or a studio.
pub open spec fn entity_json(name: Seq<char>, slug: Seq<char>) -> Seq<char> {
    json_object(
        seq![
            json_member(
                "data"@,
                json_object(
                    seq![json_member("Name"@, json_string(name)), json_member("Slug"@, json_string(slug))],
                ),
            ),
        ],
    )
}

/// The members of a category body, in key order.
pub open spec fn category_members(name: Seq<char>, slug: Seq<char>, access_level: Seq<char>) -> Seq<Seq<char>> {
    seq![
        json_member("Access_Level"@, json_string(access_level)),
        json_member("Name"@, json_string(name)),
        json_member("Slug"@, json_string(slug)),
    ]
}

/// The body that creates a category.
pub open spec fn category_json(name: Seq<char>, slug: Seq<char>, access_level: Seq<char>) -> Seq<char> {
    json_object(seq![json_member("data"@, json_object(category_members(name, slug, access_level)))])
}

/// The body that creates a sub-category under the parent category's document.
pub open spec fn sub_category_json(
    name: Seq<char>,
    slug: Seq<char>,
    access_level: Seq<char>,
    parent: Seq<char>,
) -> Seq<char> {
    json_object(
        seq![
            json_member(
                "data"@,
                json_object(
                    category_members(name, slug, access_level).push(
                        json_member(
                            "ds_category"@,
                            json_object(seq![json_member("connect"@, json_string_array(seq![parent]))]),
                        ),
                    ),
                ),
            ),
        ],
    )
}

/// Routes whose requests a dry run answers itself.
#[derive(Debug, Clone, Copy, PartialEq, Eq, Structural)]
pub enum DryRunRoute {
    Article,
    Comment,
    Author,
    AdminUsers,
    Users,
}

/// The canned 2xx body a dry run answers a route with.
pub open spec fn dry_run_body(route: DryRunRoute) -> Seq<char> {
    match route {
        DryRunRoute::Article => "{\"data\":{\"id\":-1,\"documentId\":\"dry-article\"}}"@,
        DryRunRoute::Comment => "{\"data\":{\"id\":-1}}"@,
        DryRunRoute::Author => "{\"data\":{\"id\":1}}"@,
        DryRunRoute::AdminUsers => "{\"data\":{\"successMap\":{},\"failedAdmins\":[]}}"@,
        DryRunRoute::Users => "{\"data\":{\"successMap\":{},\"failedUsers\":[]}}"@,
    }
}

/// `{"identifiers":[...]}`.
pub open spec fn find_users_json(identifiers: Seq<Seq<char>>) -> Seq<char> {
    json_object(seq![json_member("identifiers"@, json_string_array(identifiers))])
}


/// Configuration and mode of the Strapi client.
#[derive(Clone)]
pub struct StrapiClient {
    pub cfg: Config,
    pub dry_run: bool,
}

impl StrapiClient {
    pub fn new(cfg: Config) -> (r: Self)
        ensures
            r.cfg == cfg,
            !r.dry_run,
    {
        StrapiClient { cfg, dry_run: false }
    }

    pub fn with_dry_run(self, dry_run: bool) -> (r: Self)
        ensures
            r.cfg == self.cfg,
            r.dry_run == dry_run,
    {
        let mut s = self;
        s.dry_run = dry_run;
        s
    }

    pub fn is_dry_run(&self) -> (r: bool)
        ensures
            r == self.dry_run,
    {
        self.dry_run
    }

    fn headers_with(token: &str, content_json: bool) -> (r: Vec<String>)
        ensures
            r@.map_values(|s: String| s@) == headers_spec(token@, content_json),
    {
        let mut h: Vec<String> = Vec::new();
        if !token.is_empty() {
            let mut v = chars_of("Authorization: Bearer ");
            extend_str(&mut v, token);
            h.push(string_of(&v));
        }
        if content_json {
            h.push("Content-Type: application/json".to_owned());
        }
        assert(h@.map_values(|s: String| s@) =~= headers_spec(token@, content_json));
        h
    }

    /// Headers of the standard REST endpoints.
    pub fn auth_headers(&self, content_json: bool) -> (r: Vec<String>)
        ensures
            r@.map_values(|s: String| s@) == headers_spec(self.cfg.token@, content_json),
    {
        Self::headers_with(self.cfg.token.as_str(), content_json)
    }

    /// Headers of the custom `/migration/*` routes.
    pub fn migration_auth_headers(&self, content_json: bool) -> (r: Vec<String>)
        ensures
            r@.map_values(|s: String| s@) == headers_spec(migration_token_spec(self.cfg), content_json),
    {
        if !self.cfg.migration_token.as_str().is_empty() {
            Self::headers_with(self.cfg.migration_token.as_str(), content_json)
        } else {
            Self::headers_with(self.cfg.token.as_str(), content_json)
        }
    }

    /// Full URL of an API endpoint.
    pub fn build_api_url(&self, endpoint: &str) -> (r: String)
        ensures
            r@ == api_url_spec(self.cfg.strapi_base_url@, endpoint@),
    {
        let base = chars_of(self.cfg.strapi_base_url.as_str());
        let mut b = trim_end_matches_char(&base, '/');
        let e = chars_of(endpoint);
        if !starts_with_str(&e, "/") {
            b.push('/');
        }
        extend_chars(&mut b, &e);
        proof {
            reveal_strlit("/");
        }
        string_of(&b)
    }

    /// An upload URL as returned by Strapi, made absolute against `base`.
    pub fn make_absolute_url(base: &str, candidate: &str) -> (r: String)
        ensures
            r@ == absolute_url_spec(base@, candidate@),
    {
        let c = chars_of(candidate);
        let v = Self::absolute_url_chars(base, &c);
        string_of(&v)
    }

    fn absolute_url_chars(base: &str, c: &Vec<char>) -> (r: Vec<char>)
        ensures
            r@ == absolute_url_spec(base@, c@),
    {
        if starts_with_str(c, "http://") || starts_with_str(c, "https://") {
            return crate::text::slice_chars(c, 0, c.len());
        }
        let bv = chars_of(base);
        let mut b = trim_end_matches_char(&bv, '/');
        if !starts_with_str(c, "/") {
            b.push('/');
        }
        extend_chars(&mut b, c);
        proof {
            reveal_strlit("/");
        }
        b
    }

    /// Splits the items into batches whose size (data plus per-file overhead)
    /// stays within `max_payload_bytes`, keeping their order; `Err(i)` when item
    /// `i` alone is too large.
    pub fn plan_upload_batches(items: &[MediaUploadItem], max_payload_bytes: usize) -> (r: Result<
        Vec<Vec<usize>>,
        usize,
    >)
        ensures
            match r {
                Ok(b) => batch_state(item_sizes(items@), max_payload_bytes as nat) matches Ok((bs, _))
                    && b@.map_values(|v: Vec<usize>| v@.map_values(|x: usize| x as int)) == bs,
                Err(i) => batch_state(item_sizes(items@), max_payload_bytes as nat) == Err::<
                    (Seq<Seq<int>>, nat),
                    int,
                >(i as int),
            },
    {
        let ghost sizes = item_sizes(items@);
        let mut batches: Vec<Vec<usize>> = Vec::new();
        let first: Vec<usize> = Vec::new();
        batches.push(first);
        let mut cur: usize = 0;
        assert(first@.map_values(|x: usize| x as int) =~= Seq::<int>::empty());
        assert(batches@.map_values(|v: Vec<usize>| v@.map_values(|x: usize| x as int)) =~= seq![
            Seq::<int>::empty(),
        ]);
        assert(sizes.take(0) =~= Seq::<nat>::empty());
        let max = max_payload_bytes;
        for i in 0..items.len()
            invariant
                sizes == item_sizes(items@),
                max == max_payload_bytes,
                batches.len() >= 1,
                cur <= max,
                batches@[batches.len() - 1].len() == 0 ==> cur == 0,
                batch_state(sizes.take(i as int), max as nat) matches Ok((bs, c)) && c == cur
                    && batches@.map_values(|v: Vec<usize>| v@.map_values(|x: usize| x as int)) == bs,
        {
            assert(sizes.take(i + 1).drop_last() =~= sizes.take(i as int));
            let ghost bs_old = batches@.map_values(|v: Vec<usize>| v@.map_values(|x: usize| x as int));
            let len = items[i].data.len();
            assert(sizes[i as int] == len);
            assert(sizes.take(i + 1).last() == len);
            if max < PER_FILE_OVERHEAD || len > max - PER_FILE_OVERHEAD {
                proof {
                    assert(batch_state(sizes.take(i + 1), max as nat) == Err::<(Seq<Seq<int>>, nat), int>(
                        i as int,
                    ));
                    lemma_batch_err_persists(sizes, max as nat, i + 1);
                }
                return Err(i);
            }
            let item_bytes = len + PER_FILE_OVERHEAD;
            let last = batches.len() - 1;
            if item_bytes > max - cur && batches[last].len() > 0 {
                let mut nb: Vec<usize> = Vec::new();
                nb.push(i);
                assert(nb@.map_values(|x: usize| x as int) =~= seq![i as int]);
                batches.push(nb);
                cur = item_bytes;
                assert(batches@.map_values(|v: Vec<usize>| v@.map_values(|x: usize| x as int))
                    =~= bs_old.push(seq![i as int]));
            } else {
                let mut lb = batches.pop().unwrap();
                let ghost lb_old = lb@;
                lb.push(i);
                assert(lb@.map_values(|x: usize| x as int) =~= lb_old.map_values(|x: usize| x as int).push(i as int));
                batches.push(lb);
                cur = cur + item_bytes;
                assert(batches@.map_values(|v: Vec<usize>| v@.map_values(|x: usize| x as int))
                    =~= bs_old.update(bs_old.len() - 1, bs_old.last().push(i as int)));
            }
        }
        assert(sizes.take(items.len() as int) =~= sizes);
        Ok(batches)
    }

    /// Classifies an entity-creation reply from its status, its body, the
    /// `error.message` of the body's JSON (when there is one) and the fields read
    /// from that JSON (`None` when the body is not JSON): see
    /// `entity_response_spec`.
    pub fn entity_response(
        status: u16,
        body: String,
        error_message: Option<String>,
        fields: Option<EntityFields>,
    ) -> (r: EntityResponse)
        ensures
            r == entity_response_spec(status, body, error_message, fields),
    {
        if !(200 <= status && status < 300) {
            EntityResponse::Failed { status, body, error_message }
        } else if trim_str(body.as_str()).len() == 0 {
            EntityResponse::EmptyBody
        } else {
            match fields {
                None => EntityResponse::Unparsable { body },
                Some(f) => EntityResponse::Created(f),
            }
        }
    }

    /// Interprets an entity-creation exchange (see `entity_result_spec`).
    pub fn parse_created_entity(resp: &EntityResponse, name: &str, slug: &str) -> (r: Result<
        StrapiEntityResult,
        EntityError,
    >)
        ensures
            match r {
                Ok(e) => entity_result_spec(*resp, name@, slug@) == Ok::<
                    (i64, Seq<char>, Seq<char>, Seq<char>),
                    EntityError,
                >(entity_view(e)),
                Err(err) => entity_result_spec(*resp, name@, slug@) == Err::<
                    (i64, Seq<char>, Seq<char>, Seq<char>),
                    EntityError,
                >(err),
            },
    {
        match resp {
            EntityResponse::Failed { status, body, error_message } => {
                match error_message {
                    Some(m) => {
                        let lower = str_to_lowercase(m.as_str());
                        let lv = chars_of(lower.as_str());
                        if contains_str(&lv, "unique") {
                            return Ok(
                                StrapiEntityResult {
                                    id: -1,
                                    document_id: slug.to_owned(),
                                    name: name.to_owned(),
                                    slug: slug.to_owned(),
                                },
                            );
                        }
                    },
                    None => {},
                }
                Err(EntityError::Http { status: *status, body: body.clone() })
            },
            EntityResponse::EmptyBody => Ok(
                StrapiEntityResult {
                    id: -1,
                    document_id: slug.to_owned(),
                    name: name.to_owned(),
                    slug: slug.to_owned(),
                },
            ),
            EntityResponse::Unparsable { body } => Err(EntityError::Parse { body: body.clone() }),
            EntityResponse::Created(f) => {
                let out_name = match &f.name {
                    Some(s) => s.clone(),
                    None => match &f.attributes_name {
                        Some(s) => s.clone(),
                        None => name.to_owned(),
                    },
                };
                let out_slug = match &f.slug {
                    Some(s) => s.clone(),
                    None => match &f.attributes_slug {
                        Some(s) => s.clone(),
                        None => slug.to_owned(),
                    },
                };
                let id = match f.id {
                    Some(i) => i,
                    None => -1i64,
                };
                let doc = match &f.document_id {
                    Some(s) => s.clone(),
                    None => match &f.attributes_document_id {
                        Some(s) => s.clone(),
                        None => out_slug.clone(),
                    },
                };
                Ok(StrapiEntityResult { id, document_id: doc, name: out_name, slug: out_slug })
            },
        }
    }

    /// The media of a single-file upload (see `uploaded_media_spec`).
    pub fn uploaded_media(base: &str, reply: &UploadReply) -> (r: Result<UploadedMedia, String>)
        ensures
            match r {
                Ok(m) => uploaded_media_spec(base@, *reply) == Ok::<(i64, Seq<char>), Seq<char>>((m.id, m.url@)),
                Err(e) => uploaded_media_spec(base@, *reply) == Err::<(i64, Seq<char>), Seq<char>>(e@),
            },
    {
        if !(200 <= reply.status && reply.status < 300) {
            let mut m = chars_of("upload_media: HTTP ");
            extend_chars(&mut m, &crate::text::u64_digits(reply.status as u64));
            extend_str(&mut m, ": ");
            extend_str(&mut m, reply.body.as_str());
            return Err(string_of(&m));
        }
        match &reply.entries {
            None => {
                let mut m = chars_of("parse upload_media response: ");
                extend_str(&mut m, reply.body.as_str());
                Err(string_of(&m))
            },
            Some(None) => Err("upload_media: not an array".to_owned()),
            Some(Some(v)) => {
                if v.len() == 0 {
                    return Err("upload_media: empty response".to_owned());
                }
                match &v[0] {
                    (None, _) => Err("missing id".to_owned()),
                    (Some(_), None) => Err("missing url".to_owned()),
                    (Some(id), Some(u)) => Ok(
                        UploadedMedia { id: *id, url: Self::make_absolute_url(base, u.as_str()) },
                    ),
                }
            },
        }
    }

    /// The media a dry run reports for an upload: id -1 and `dry-run://<file name>`.
    pub fn dry_run_media(file_name: &str) -> (r: UploadedMedia)
        ensures
            r.id == -1,
            r.url@ == "dry-run://"@ + file_name@,
    {
        let mut u = chars_of("dry-run://");
        extend_str(&mut u, file_name);
        UploadedMedia { id: -1, url: string_of(&u) }
    }

    /// Image id -> media id of an avatar batch upload (see `user_images_spec`).
    pub fn user_image_ids(image_ids: &Vec<String>, reply: &UserImagesReply) -> (r: Result<Vec<(String, i64)>, String>)
        ensures
            match r {
                Ok(v) => user_images_spec(image_ids@, *reply) == Ok::<Seq<(Seq<char>, i64)>, Seq<char>>(
                    v@.map_values(|p: (String, i64)| (p.0@, p.1)),
                ),
                Err(e) => user_images_spec(image_ids@, *reply) == Err::<Seq<(Seq<char>, i64)>, Seq<char>>(e@),
            },
    {
        if !(200 <= reply.status && reply.status < 300) {
            let mut m = chars_of("upload_user_images_batch: HTTP ");
            extend_chars(&mut m, &crate::text::u64_digits(reply.status as u64));
            extend_str(&mut m, ": ");
            extend_str(&mut m, reply.body.as_str());
            return Err(string_of(&m));
        }
        match &reply.ids {
            Err(m) => Err(m.clone()),
            Ok(None) => Err("upload_user_images_batch: not an array".to_owned()),
            Ok(Some(v)) => {
                if v.len() != image_ids.len() {
                    return Err("upload_user_images_batch: response size mismatch".to_owned());
                }
                let mut out: Vec<(String, i64)> = Vec::new();
                for i in 0..v.len()
                    invariant
                        v@.len() == image_ids@.len(),
                        out@.map_values(|p: (String, i64)| (p.0@, p.1)) == id_pairs(
                            image_ids@.take(i as int),
                            v@.take(i as int),
                        ),
                {
                    assert(image_ids@.take(i + 1).drop_last() =~= image_ids@.take(i as int));
                    assert(v@.take(i + 1).drop_last() =~= v@.take(i as int));
                    let ghost before = out@;
                    match v[i] {
                        Some(id) => {
                            out.push((image_ids[i].clone(), id));
                            assert(out@.map_values(|p: (String, i64)| (p.0@, p.1)) =~= before.map_values(
                                |p: (String, i64)| (p.0@, p.1),
                            ).push((image_ids@[i as int]@, id)));
                        },
                        None => {},
                    }
                }
                assert(image_ids@.take(v.len() as int) =~= image_ids@);
                assert(v@.take(v.len() as int) =~= v@);
                Ok(out)
            },
        }
    }

    /// Image id -> -1 for avatar uploads skipped in dry-run mode.
    pub fn dry_run_user_images(image_ids: &Vec<String>) -> (r: Vec<(String, i64)>)
        ensures
            r@.map_values(|p: (String, i64)| (p.0@, p.1)) == image_ids@.map_values(|s: String| (s@, -1i64)),
    {
        let mut out: Vec<(String, i64)> = Vec::new();
        for i in 0..image_ids.len()
            invariant
                out@.map_values(|p: (String, i64)| (p.0@, p.1)) == image_ids@.take(i as int).map_values(
                    |s: String| (s@, -1i64),
                ),
        {
            let ghost before = out@;
            out.push((image_ids[i].clone(), -1));
            assert(out@.map_values(|p: (String, i64)| (p.0@, p.1)) =~= before.map_values(
                |p: (String, i64)| (p.0@, p.1),
            ).push((image_ids@[i as int]@, -1i64)));
            assert(image_ids@.take(i + 1).map_values(|s: String| (s@, -1i64)) =~= image_ids@.take(
                i as int,
            ).map_values(|s: String| (s@, -1i64)).push((image_ids@[i as int]@, -1i64)));
        }
        assert(image_ids@.take(image_ids.len() as int) =~= image_ids@);
        out
    }

    /// A 2xx response with the given body.
    pub fn fake_ok(body: &str) -> (r: HttpResponse)
        ensures
            r.status_code == 200,
            r.body@ == body@,
    {
        HttpResponse { status_code: 200, body: body.to_owned() }
    }

    /// What a dry run answers a request to `route` with (see `dry_run_body`).
    pub fn dry_run_reply(route: DryRunRoute) -> (r: HttpResponse)
        ensures
            r.status_code == 200,
            r.body@ == dry_run_body(route),
    {
        match route {
            DryRunRoute::Article => Self::fake_ok("{\"data\":{\"id\":-1,\"documentId\":\"dry-article\"}}"),
            DryRunRoute::Comment => Self::fake_ok("{\"data\":{\"id\":-1}}"),
            DryRunRoute::Author => Self::fake_ok("{\"data\":{\"id\":1}}"),
            DryRunRoute::AdminUsers => Self::fake_ok("{\"data\":{\"successMap\":{},\"failedAdmins\":[]}}"),
            DryRunRoute::Users => Self::fake_ok("{\"data\":{\"successMap\":{},\"failedUsers\":[]}}"),
        }
    }

    /// The body that creates a performer or a studio (see `entity_json`).
    pub fn entity_body(name: &str, slug: &str) -> (r: String)
        ensures
            r@ == entity_json(name@, slug@),
    {
        let mut m: Vec<Vec<char>> = Vec::new();
        m.push(member("Name", quote(name)));
        m.push(member("Slug", quote(slug)));
        assert(char_views(m@) =~= seq![json_member("Name"@, json_string(name@)), json_member("Slug"@, json_string(slug@))]);
        let mut outer: Vec<Vec<char>> = Vec::new();
        outer.push(member("data", object(&m)));
        assert(char_views(outer@) =~= seq![
            json_member(
                "data"@,
                json_object(seq![json_member("Name"@, json_string(name@)), json_member("Slug"@, json_string(slug@))]),
            ),
        ]);
        string_of(&object(&outer))
    }

    fn category_member_list(name: &str, slug: &str, access_level: &str) -> (r: Vec<Vec<char>>)
        ensures
            char_views(r@) == category_members(name@, slug@, access_level@),
    {
        let mut m: Vec<Vec<char>> = Vec::new();
        m.push(member("Access_Level", quote(access_level)));
        m.push(member("Name", quote(name)));
        m.push(member("Slug", quote(slug)));
        assert(char_views(m@) =~= category_members(name@, slug@, access_level@));
        m
    }

    /// The body that creates a category (see `category_json`).
    pub fn category_body(name: &str, slug: &str, access_level: &str) -> (r: String)
        ensures
            r@ == category_json(name@, slug@, access_level@),
    {
        let m = Self::category_member_list(name, slug, access_level);
        let mut outer: Vec<Vec<char>> = Vec::new();
        outer.push(member("data", object(&m)));
        assert(char_views(outer@) =~= seq![
            json_member("data"@, json_object(category_members(name@, slug@, access_level@))),
        ]);
        string_of(&object(&outer))
    }

    /// The body that creates a sub-category (see `sub_category_json`).
    pub fn sub_category_body(name: &str, slug: &str, access_level: &str, parent_document_id: &str) -> (r:
        String)
        ensures
            r@ == sub_category_json(name@, slug@, access_level@, parent_document_id@),
    {
        let mut m = Self::category_member_list(name, slug, access_level);
        let mut ids: Vec<String> = Vec::new();
        ids.push(parent_document_id.to_owned());
        let mut c: Vec<Vec<char>> = Vec::new();
        c.push(member("connect", string_array(&ids)));
        assert(ids@.map_values(|s: String| s@) =~= seq![parent_document_id@]);
        assert(char_views(c@) =~= seq![json_member("connect"@, json_string_array(seq![parent_document_id@]))]);
        let ghost before = char_views(m@);
        m.push(member("ds_category", object(&c)));
        assert(char_views(m@) =~= before.push(
            json_member(
                "ds_category"@,
                json_object(seq![json_member("connect"@, json_string_array(seq![parent_document_id@]))]),
            ),
        ));
        let mut outer: Vec<Vec<char>> = Vec::new();
        outer.push(member("data", object(&m)));
        assert(char_views(outer@) =~= seq![
            json_member(
                "data"@,
                json_object(
                    category_members(name@, slug@, access_level@).push(
                        json_member(
                            "ds_category"@,
                            json_object(seq![json_member("connect"@, json_string_array(seq![parent_document_id@]))]),
                        ),
                    ),
                ),
            ),
        ]);
        string_of(&object(&outer))
    }

    /// The body of a search for existing users (see `find_users_json`).
    pub fn find_users_body(identifiers: &Vec<String>) -> (r: String)
        ensures
            r@ == find_users_json(identifiers@.map_values(|s: String| s@)),
    {
        let mut m: Vec<Vec<char>> = Vec::new();
        m.push(member("identifiers", string_array(identifiers)));
        assert(char_views(m@) =~= seq![
            json_member("identifiers"@, json_string_array(identifiers@.map_values(|s: String| s@))),
        ]);
        string_of(&object(&m))
    }

    /// Result reported for an entity creation skipped in dry-run mode.
    pub fn dry_run_entity(name: &str, slug: &str) -> (r: StrapiEntityResult)
        ensures
            entity_view(r) == (-1i64, "dry-"@ + slug@, name@, slug@),
    {
        let mut d = chars_of("dry-");
        extend_str(&mut d, slug);
        StrapiEntityResult {
            id: -1,
            document_id: string_of(&d),
            name: name.to_owned(),
            slug: slug.to_owned(),
        }
    }

    /// `blockIndex -> dry-run://<file name>` for uploads skipped in dry-run mode
    /// (a later item with the same index wins).
    pub fn dry_run_url_map(items: &[MediaUploadItem]) -> (r: HashMap<i32, String>)
        ensures
            r@.dom() == dry_run_map_spec(items@).dom(),
            forall|k: i32| #[trigger] r@.contains_key(k) ==> r@[k]@ == dry_run_map_spec(items@)[k],
    {
        let mut m: HashMap<i32, String> = HashMap::new();
        for i in 0..items.len()
            invariant
                m@.dom() == dry_run_map_spec(items@.take(i as int)).dom(),
                forall|k: i32| #[trigger] m@.contains_key(k) ==> m@[k]@ == dry_run_map_spec(items@.take(i as int))[k],
        {
            let mut u = chars_of("dry-run://");
            extend_str(&mut u, items[i].file_name.as_str());
            m.insert(items[i].block_index, string_of(&u));
            assert(items@.take(i + 1).drop_last() =~= items@.take(i as int));
            assert(m@.dom() =~= dry_run_map_spec(items@.take(i + 1)).dom());
        }
        assert(items@.take(items.len() as int) =~= items@);
        m
    }

    /// The uploaded URLs of one batch made absolute, keyed by block index; `None`
    /// when Strapi answered with a different number of entries than files sent.
    pub fn batch_url_entries(
        base: &str,
        block_indices: &Vec<i32>,
        urls: &Vec<Option<String>>,
    ) -> (r: Option<Vec<(i32, String)>>)
        ensures
            match r {
                None => block_indices.len() != urls.len(),
                Some(v) => block_indices.len() == urls.len() && v.len() == urls.len() && forall|i: int|
                    0 <= i < v.len() ==> v@[i].0 == block_indices@[i] && v@[i].1@ == absolute_url_spec(
                        base@,
                        match urls@[i] {
                            Some(u) => u@,
                            None => Seq::empty(),
                        },
                    ),
            },
    {
        if block_indices.len() != urls.len() {
            return None;
        }
        let mut out: Vec<(i32, String)> = Vec::new();
        let mut i: usize = 0;
        while i < urls.len()
            invariant
                i <= urls.len(),
                block_indices.len() == urls.len(),
                out.len() == i,
                forall|k: int|
                    0 <= k < i ==> out@[k].0 == block_indices@[k] && out@[k].1@ == absolute_url_spec(
                        base@,
                        match urls@[k] {
                            Some(u) => u@,
                            None => Seq::empty(),
                        },
                    ),
            decreases urls.len() - i,
        {
            let raw: Vec<char> = match &urls[i] {
                Some(u) => chars_of(u.as_str()),
                None => Vec::new(),
            };
            let ghost want = match urls@[i as int] {
                Some(u) => u@,
                None => Seq::<char>::empty(),
            };
            assert(raw@ == want);
            let abs = Self::absolute_url_chars(base, &raw);
            let entry = (block_indices[i], string_of(&abs));
            assert(entry.1@ == absolute_url_spec(base@, want));
            let ghost old_out = out@;
            out.push(entry);
            assert(forall|k: int| 0 <= k < i ==> out@[k] == old_out[k]);
            i += 1;
        }
        Some(out)
    }
}

} // verus!
