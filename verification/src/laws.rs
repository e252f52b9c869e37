//! Properties of the migration that relate several operations or hold of
//! every input, stated over the specifications the operations are verified
//! against.
use vstd::prelude::*;

use crate::cache::{
    fallback_user_id, first_comment_index, upsert_comment_spec, MappingCache, MappingType,
    MappingView,
};
use crate::error::{backoff_spec, is_retryable_spec, pow2, pow3, retry_decision_spec, ErrorType, RetryDecision};
use crate::html::{html_fragment_nodes, subtree_end, subtree_end_from, HtmlNode, PreNode};
use crate::content_parser::{cta_block_spec, image_block_spec, is_cta_node, join_words, text_in};
use crate::article_transformer::{cta_entries, mapped_ids, transform_spec};
use crate::error::classify_http_spec;
use crate::strapi::{entity_result_spec, EntityFields, EntityResponse};
use crate::excerpt::{block_tag_list, close_frames, is_block_spec, text_step, text_walk, TextWalk};
use crate::models::{BlockType, BlockView, WpPost};
use crate::text::eq_ignore_case;
use crate::json::{json_escape, json_escape_char};
use crate::models::{CommentFailureRecord, PartialArticleRecord};
use crate::excerpt::{
    cap_length_spec, decode_from, decode_spec, extract_plain_text_spec, reference_at, reference_code,
    scalar_of, semicolon_scan, fit_from, last_ws, normalize_spec,
    normalize_title_spec, plain_text_of_nodes, utf16_len,
    utf16_units, EXCERPT_MAX_CHARS,
};
use crate::article_transformer::{sanitize_slug_spec, slug_char_allowed, slug_state};
use crate::strapi::{batch_state, PER_FILE_OVERHEAD};
use crate::wp::id_group;
use crate::excerpt::{collapse_spec, collapse_state};
use crate::text::{
    digit_char, drop_while_end, drop_while_start, int_decimal, is_ascii_alnum, is_char_pred, is_ws,
    nat_digits, trim_char_seq, trim_end_seq, trim_seq, truncate_spec, ws_pred,
};
use crate::users::{
    author_outcome_ok, batch_failures_spec, batch_range, batch_successes_spec, email_wps, ident_of, idents_of,
    username_wps, wps_for, AuthorOutcome, AuthorReply, BulkUsersReply, User,
};

verus! {

// ---------------- text ----------------

/// Shortening a text for a log line or a reason keeps a prefix of it.
pub proof fn law_truncate_is_prefix(s: Seq<char>, n: nat)
    ensures
        truncate_spec(s, n).len() <= s.len(),
        truncate_spec(s, n) == s.take(truncate_spec(s, n).len() as int),
{
    if !(crate::text::utf8_len(s) <= n) && !(s.len() <= n) {
        assert(s.take(n as int).len() == n);
    } else {
        assert(s.take(s.len() as int) =~= s);
    }
}

/// Dropping characters from the front leaves a suffix whose first character
/// (if any) does not satisfy the predicate.
pub proof fn lemma_drop_start_shape(s: Seq<char>, p: spec_fn(char) -> bool) -> (i: int)
    ensures
        0 <= i <= s.len(),
        drop_while_start(s, p) == s.subrange(i, s.len() as int),
        drop_while_start(s, p).len() > 0 ==> !p(drop_while_start(s, p)[0]),
    decreases s.len(),
{
    if s.len() > 0 && p(s[0]) {
        let t = s.subrange(1, s.len() as int);
        let j = lemma_drop_start_shape(t, p);
        assert(t.subrange(j, t.len() as int) =~= s.subrange(j + 1, s.len() as int));
        j + 1
    } else {
        assert(s.subrange(0, s.len() as int) =~= s);
        0
    }
}

/// Dropping characters from the back leaves a prefix whose last character (if
/// any) does not satisfy the predicate.
pub proof fn lemma_drop_end_shape(s: Seq<char>, p: spec_fn(char) -> bool) -> (j: int)
    ensures
        0 <= j <= s.len(),
        drop_while_end(s, p) == s.subrange(0, j),
        drop_while_end(s, p).len() > 0 ==> !p(drop_while_end(s, p).last()),
    decreases s.len(),
{
    if s.len() > 0 && p(s[s.len() - 1]) {
        let t = s.subrange(0, s.len() - 1);
        let j = lemma_drop_end_shape(t, p);
        assert(t.subrange(0, j) =~= s.subrange(0, j));
        j
    } else {
        assert(s.subrange(0, s.len() as int) =~= s);
        s.len() as int
    }
}

// ---------------- JSON ----------------

/// A character JSON writes as itself.
pub open spec fn json_plain(c: char) -> bool {
    c != '"' && c != '\\' && (c as int) >= 32
}

/// Text without quotes, backslashes or control characters is written into a
/// JSON string literal unchanged.
pub proof fn law_json_plain_text_unchanged(s: Seq<char>)
    requires
        forall|i: int| 0 <= i < s.len() ==> json_plain(#[trigger] s[i]),
    ensures
        json_escape(s) == s,
    decreases s.len(),
{
    if s.len() > 0 {
        law_json_plain_text_unchanged(s.drop_last());
        assert(json_plain(s[s.len() - 1]));
        assert(json_escape_char(s.last()) == seq![s.last()]);
        assert(s.drop_last().push(s.last()) =~= s);
    }
}

/// Every character of an escaped text is either written as itself or written
/// behind a backslash: the escaped text is never shorter than the text.
pub proof fn law_json_escape_not_shorter(s: Seq<char>)
    ensures
        json_escape(s).len() >= s.len(),
    decreases s.len(),
{
    if s.len() > 0 {
        law_json_escape_not_shorter(s.drop_last());
    }
}

// ---------------- retries ----------------

/// A retry is only ever scheduled for a retryable error and while attempts
/// remain; every other failure gives up at once.
pub proof fn law_retry_only_when_retryable(attempt: u32, max_attempts: u32, t: ErrorType)
    ensures
        retry_decision_spec(attempt, max_attempts, t) !is GiveUp ==> is_retryable_spec(t)
            && attempt < max_attempts,
        is_retryable_spec(t) && attempt < max_attempts && attempt <= 30 ==> retry_decision_spec(
            attempt,
            max_attempts,
            t,
        ) == RetryDecision::WaitMs(backoff_spec(attempt as nat) as u64),
        !is_retryable_spec(t) ==> retry_decision_spec(attempt, max_attempts, t) == RetryDecision::GiveUp,
        attempt >= max_attempts ==> retry_decision_spec(attempt, max_attempts, t)
            == RetryDecision::GiveUp,
{
}

proof fn lemma_pow3_ge_pow2(k: nat)
    ensures
        pow3(k) >= pow2(k) >= 1,
    decreases k,
{
    if k > 0 {
        lemma_pow3_ge_pow2((k - 1) as nat);
    }
}

/// The backoff grows strictly with each attempt.
pub proof fn law_backoff_increasing(attempt: nat)
    requires
        attempt >= 1,
    ensures
        backoff_spec(attempt) < backoff_spec(attempt + 1),
{
    let k = (attempt - 1) as nat;
    lemma_pow3_ge_pow2(k);
    let x = pow3(k) as int;
    let y = pow2(k) as int;
    assert(pow3(k + 1) == 3 * x);
    assert(pow2(k + 1) == 2 * y);
    let q1 = (2000 * x + y) / (2 * y);
    let q2 = (2000 * (3 * x) + 2 * y) / (2 * (2 * y));
    assert(q1 < q2) by (nonlinear_arith)
        requires
            x >= y >= 1,
            q1 == (2000 * x + y) / (2 * y),
            q2 == (2000 * (3 * x) + 2 * y) / (2 * (2 * y)),
    {
        assert(q1 * (2 * y) <= 2000 * x + y);
        assert((q1 + 1) * (4 * y) <= 4000 * x + 6 * y);
        assert((q1 + 1) * (4 * y) <= 6000 * x + 2 * y);
    }
    assert(backoff_spec(attempt) == q1);
    assert(backoff_spec(attempt + 1) == q2);
}

// ---------------- mapping tables ----------------

/// A sub-category mapping of a WordPress category wins over its category
/// mapping.
pub proof fn law_sub_category_precedence(v: MappingView, wp_id: i64, doc: Seq<char>)
    ensures
        MappingCache::category_document_id_spec(
            MappingView { sub_categories: v.sub_categories.insert(wp_id, doc), ..v },
            wp_id,
        ) == doc,
{
}

/// Each table gives back what was last written for an id, and a write leaves
/// every other id as it was: performers and studios (with their kind),
/// sub-categories, categories (where no sub-category covers the id), users,
/// authors (their id in decimal) and avatars.
pub proof fn law_mapping_read_after_write(
    v: MappingView,
    wp_id: i64,
    other: i64,
    doc: Seq<char>,
    sid: i64,
    image: Seq<char>,
    other_image: Seq<char>,
    media: i64,
)
    requires
        other != wp_id,
        other_image != image,
    ensures
        ({
            let w = MappingView {
                performers_studios: v.performers_studios.insert(wp_id, (MappingType::Studio, doc)),
                ..v
            };
            &&& w.performers_studios.contains_key(wp_id)
            &&& w.performers_studios[wp_id] == (MappingType::Studio, doc)
            &&& w.performers_studios.contains_key(other) == v.performers_studios.contains_key(other)
            &&& w.performers_studios[other] == v.performers_studios[other]
        }),
        ({
            let w = MappingView {
                performers_studios: v.performers_studios.insert(wp_id, (MappingType::Performer, doc)),
                ..v
            };
            &&& w.performers_studios.contains_key(wp_id)
            &&& w.performers_studios[wp_id] == (MappingType::Performer, doc)
            &&& w.performers_studios.contains_key(other) == v.performers_studios.contains_key(other)
            &&& w.performers_studios[other] == v.performers_studios[other]
        }),
        ({
            let w = MappingView { sub_categories: v.sub_categories.insert(wp_id, doc), ..v };
            &&& MappingCache::category_document_id_spec(w, wp_id) == doc
            &&& MappingCache::category_document_id_spec(w, other)
                == MappingCache::category_document_id_spec(v, other)
        }),
        ({
            let w = MappingView { categories: v.categories.insert(wp_id, doc), ..v };
            &&& !v.sub_categories.contains_key(wp_id) ==> MappingCache::category_document_id_spec(
                w,
                wp_id,
            ) == doc
            &&& MappingCache::category_document_id_spec(w, other)
                == MappingCache::category_document_id_spec(v, other)
        }),
        ({
            let w = MappingView { users: v.users.insert(wp_id, sid), ..v };
            &&& MappingCache::user_strapi_id_spec(w, wp_id) == sid
            &&& MappingCache::user_strapi_id_spec(w, other) == MappingCache::user_strapi_id_spec(
                v,
                other,
            )
        }),
        ({
            let w = MappingView { authors: v.authors.insert(wp_id, sid), ..v };
            &&& MappingCache::author_document_id_spec(w, wp_id) == int_decimal(sid as int)
            &&& MappingCache::author_document_id_spec(w, other)
                == MappingCache::author_document_id_spec(v, other)
        }),
        ({
            let w = MappingView { images: v.images.insert(image, media), ..v };
            &&& w.images.contains_key(image)
            &&& w.images[image] == media
            &&& w.images.contains_key(other_image) == v.images.contains_key(other_image)
            &&& w.images[other_image] == v.images[other_image]
        }),
{
}

/// A comment's author resolves to its user mapping, else its admin mapping,
/// else the fallback user 3.
pub proof fn law_user_resolution(v: MappingView, wp_id: i64)
    ensures
        v.users.contains_key(wp_id) ==> MappingCache::user_strapi_id_spec(v, wp_id)
            == v.users[wp_id],
        !v.users.contains_key(wp_id) && v.admin_users.contains_key(wp_id)
            ==> MappingCache::user_strapi_id_spec(v, wp_id) == v.admin_users[wp_id],
        !v.users.contains_key(wp_id) && !v.admin_users.contains_key(wp_id)
            ==> MappingCache::user_strapi_id_spec(v, wp_id) == 3,
{
}

// ---------------- retry queues ----------------

pub open spec fn comment_ids_unique(s: Seq<CommentFailureRecord>) -> bool {
    forall|i: int, j: int|
        0 <= i < j < s.len() ==> (#[trigger] s[i]).wp_comment_id != (#[trigger] s[j]).wp_comment_id
}

/// Recording a failed comment keeps one record per comment, and that record is
/// the latest one.
pub proof fn law_comment_queue_one_per_comment(s: Seq<CommentFailureRecord>, r: CommentFailureRecord)
    requires
        comment_ids_unique(s),
    ensures
        comment_ids_unique(upsert_comment_spec(s, r)),
        exists|i: int|
            0 <= i < upsert_comment_spec(s, r).len() && upsert_comment_spec(s, r)[i] == r,
{
    let t = upsert_comment_spec(s, r);
    match first_comment_index(s, r.wp_comment_id) {
        Some(i) => {
            assert(0 <= i < s.len() && s[i].wp_comment_id == r.wp_comment_id);
            assert(t[i] == r);
            assert forall|a: int, b: int| 0 <= a < b < t.len() implies (#[trigger] t[a]).wp_comment_id
                != (#[trigger] t[b]).wp_comment_id by {
                if a == i {
                    assert(s[b].wp_comment_id != s[i].wp_comment_id);
                } else if b == i {
                    assert(s[a].wp_comment_id != s[i].wp_comment_id);
                } else {
                    assert(s[a].wp_comment_id != s[b].wp_comment_id);
                }
            }
        },
        None => {
            assert(!exists|i: int| 0 <= i < s.len() && s[i].wp_comment_id == r.wp_comment_id);
            assert(t[s.len() as int] == r);
            assert forall|a: int, b: int| 0 <= a < b < t.len() implies (#[trigger] t[a]).wp_comment_id
                != (#[trigger] t[b]).wp_comment_id by {
                if b == s.len() {
                    assert(s[a].wp_comment_id != r.wp_comment_id);
                } else {
                    assert(s[a].wp_comment_id != s[b].wp_comment_id);
                }
            }
        },
    }
}

// ---------------- reconciliation ----------------

/// The known user has the identifier as its email.
pub open spec fn email_match(c: Option<(Seq<char>, Seq<char>)>, ident: Seq<char>) -> bool {
    match c {
        Some(c) => c.0.len() > 0 && c.0 == ident,
        None => false,
    }
}

/// The known user has no email and the identifier as its username.
pub open spec fn username_match(c: Option<(Seq<char>, Seq<char>)>, ident: Seq<char>) -> bool {
    match c {
        Some(c) => c.0.len() == 0 && c.1 == ident,
        None => false,
    }
}

/// An identifier of the reply only ever recovers failed users, and each of them
/// has that identifier as its email, or has no email and has it as its username.
pub proof fn law_reconciled_ids_are_failed(
    failed: Seq<i64>,
    contacts: Seq<Option<(Seq<char>, Seq<char>)>>,
    ident: Seq<char>,
    k: int,
)
    requires
        contacts.len() == failed.len(),
        0 <= k < wps_for(failed, contacts, ident).len(),
    ensures
        exists|i: int|
            0 <= i < failed.len() && failed[i] == wps_for(failed, contacts, ident)[k] && (email_match(
                #[trigger] contacts[i],
                ident,
            ) || username_match(contacts[i], ident)),
{
    if email_wps(failed, contacts, ident).len() > 0 {
        lemma_email_wps_origin(failed, contacts, ident, k);
    } else {
        lemma_username_wps_origin(failed, contacts, ident, k);
    }
}

proof fn lemma_email_wps_origin(
    failed: Seq<i64>,
    contacts: Seq<Option<(Seq<char>, Seq<char>)>>,
    ident: Seq<char>,
    k: int,
)
    requires
        contacts.len() == failed.len(),
        0 <= k < email_wps(failed, contacts, ident).len(),
    ensures
        exists|i: int|
            0 <= i < failed.len() && failed[i] == email_wps(failed, contacts, ident)[k] && email_match(
                #[trigger] contacts[i],
                ident,
            ),
    decreases failed.len(),
{
    let rest = email_wps(failed.drop_last(), contacts.drop_last(), ident);
    if k < rest.len() {
        lemma_email_wps_origin(failed.drop_last(), contacts.drop_last(), ident, k);
        let i = choose|i: int|
            0 <= i < failed.drop_last().len() && failed.drop_last()[i] == rest[k] && email_match(
                #[trigger] contacts.drop_last()[i],
                ident,
            );
        assert(contacts[i] == contacts.drop_last()[i]);
    } else {
        let i = failed.len() - 1;
        assert(contacts[i] == contacts.last());
    }
}

proof fn lemma_username_wps_origin(
    failed: Seq<i64>,
    contacts: Seq<Option<(Seq<char>, Seq<char>)>>,
    ident: Seq<char>,
    k: int,
)
    requires
        contacts.len() == failed.len(),
        0 <= k < username_wps(failed, contacts, ident).len(),
    ensures
        exists|i: int|
            0 <= i < failed.len() && failed[i] == username_wps(failed, contacts, ident)[k]
                && username_match(#[trigger] contacts[i], ident),
    decreases failed.len(),
{
    let rest = username_wps(failed.drop_last(), contacts.drop_last(), ident);
    if k < rest.len() {
        lemma_username_wps_origin(failed.drop_last(), contacts.drop_last(), ident, k);
        let i = choose|i: int|
            0 <= i < failed.drop_last().len() && failed.drop_last()[i] == rest[k] && username_match(
                #[trigger] contacts.drop_last()[i],
                ident,
            );
        assert(contacts[i] == contacts.drop_last()[i]);
    } else {
        let i = failed.len() - 1;
        assert(contacts[i] == contacts.last());
    }
}

/// The identifiers searched for are distinct and never empty.
pub proof fn law_identifiers_distinct(contacts: Seq<Option<(Seq<char>, Seq<char>)>>)
    ensures
        forall|i: int| 0 <= i < idents_of(contacts).len() ==> (#[trigger] idents_of(contacts)[i]).len() > 0,
        forall|i: int, j: int|
            0 <= i < j < idents_of(contacts).len() ==> (#[trigger] idents_of(contacts)[i]) != (
            #[trigger] idents_of(contacts)[j]),
    decreases contacts.len(),
{
    if contacts.len() > 0 {
        law_identifiers_distinct(contacts.drop_last());
        let rest = idents_of(contacts.drop_last());
        match contacts.last() {
            Some(c) => {
                if !(ident_of(c).len() == 0 || rest.contains(ident_of(c))) {
                    let t = rest.push(ident_of(c));
                    assert forall|i: int, j: int| 0 <= i < j < t.len() implies (#[trigger] t[i]) != (
                    #[trigger] t[j]) by {
                        if j == rest.len() {
                            assert(rest[i] == t[i]);
                            if rest[i] == ident_of(c) {
                                assert(rest.contains(ident_of(c)));
                            }
                        } else {
                            assert(rest[i] != rest[j]);
                        }
                    }
                }
            },
            None => {},
        }
    }
}


// ---------------- excerpts ----------------

proof fn lemma_utf16_prefix_step(s: Seq<char>, k: int)
    requires
        0 <= k < s.len(),
    ensures
        utf16_len(s.take(k + 1)) == utf16_len(s.take(k)) + utf16_units(s[k]),
{
    assert(s.take(k + 1).drop_last() =~= s.take(k));
}

proof fn lemma_utf16_prefix_mono(s: Seq<char>, j: int, k: int)
    requires
        0 <= j <= k <= s.len(),
    ensures
        utf16_len(s.take(j)) <= utf16_len(s.take(k)),
    decreases k - j,
{
    if j < k {
        lemma_utf16_prefix_step(s, k - 1);
        lemma_utf16_prefix_mono(s, j, k - 1);
    }
}

proof fn lemma_fit_from(s: Seq<char>, budget: nat, k: int, units: nat)
    requires
        0 <= k <= s.len(),
        units == utf16_len(s.take(k)),
        units <= budget,
    ensures
        k <= fit_from(s, budget, k, units) <= s.len(),
        utf16_len(s.take(fit_from(s, budget, k, units))) <= budget,
    decreases s.len() - k,
{
    if 0 <= k < s.len() && units + utf16_units(s[k]) <= budget {
        lemma_utf16_prefix_step(s, k);
        lemma_fit_from(s, budget, k + 1, units + utf16_units(s[k]));
    }
}

proof fn lemma_last_ws_range(s: Seq<char>)
    ensures
        last_ws(s) matches Some(w) ==> 0 <= w < s.len(),
    decreases s.len(),
{
    if s.len() > 0 && !is_ws(s.last()) {
        lemma_last_ws_range(s.drop_last());
    }
}

/// A capped text never exceeds its limit in UTF-16 units (the unit in which
/// Strapi counts), the ellipsis included.
pub proof fn law_cap_length_bound(s: Seq<char>, max: nat)
    requires
        max >= 1,
    ensures
        utf16_len(cap_length_spec(s, max)) <= max,
{
    if utf16_len(s) > max {
        let budget = (max - 1) as nat;
        assert(s.take(0) =~= Seq::<char>::empty());
        lemma_fit_from(s, budget, 0, 0);
        let n = fit_from(s, budget, 0, 0);
        let acc = s.take(n);
        assert(utf16_len(acc) <= budget);
        lemma_last_ws_range(acc);
        let base = match last_ws(acc) {
            Some(w) => if acc.len() - w <= 40 {
                trim_end_seq(acc.take(w))
            } else {
                acc
            },
            None => acc,
        };
        match last_ws(acc) {
            Some(w) => if acc.len() - w <= 40 {
                let j = lemma_drop_end_shape(acc.take(w), ws_pred());
                assert(base =~= acc.take(j));
                lemma_utf16_prefix_mono(acc, j, acc.len() as int);
                assert(acc.take(acc.len() as int) =~= acc);
            } else {
            },
            None => {},
        }
        assert(utf16_len(base) <= budget);
        assert(base.push('\u{2026}').drop_last() =~= base);
        assert(utf16_len(base.push('\u{2026}')) == utf16_len(base) + 1);
    }
}

/// A normalised excerpt never exceeds 300 UTF-16 units.
pub proof fn law_excerpt_within_limit(raw: Seq<char>)
    ensures
        utf16_len(normalize_spec(raw)) <= EXCERPT_MAX_CHARS,
{
    law_cap_length_bound(trim_seq(extract_plain_text_spec(raw)), EXCERPT_MAX_CHARS as nat);
}


/// No whitespace at either end and no two whitespace characters in a row.
pub open spec fn ws_clean(s: Seq<char>) -> bool {
    &&& s.len() > 0 ==> !is_ws(s[0]) && !is_ws(s.last())
    &&& forall|i: int| 0 <= i < s.len() - 1 ==> !(is_ws(#[trigger] s[i]) && is_ws(s[i + 1]))
}

proof fn lemma_title_clean(raw: Seq<char>)
    ensures
        ws_clean(normalize_title_spec(raw)),
        normalize_title_spec(raw) == extract_plain_text_spec(raw),
{
    let e = extract_plain_text_spec(raw);
    let p = ws_pred();
    if raw.len() > 0 {
        law_collapsed_text_shape(plain_text_of_nodes(html_fragment_nodes(decode_spec(raw))));
    }
    assert(drop_while_start(e, p) == e);
    assert(drop_while_end(e, p) == e);
}

/// A normalised excerpt is the normalised title text when that fits in 300
/// UTF-16 units; otherwise a prefix of it followed by an ellipsis, within 300
/// units. Either way it has no whitespace at either end and no two whitespace
/// characters in a row.
pub proof fn law_excerpt_shape(raw: Seq<char>)
    ensures
        ({
            let t = normalize_title_spec(raw);
            let r = normalize_spec(raw);
            &&& utf16_len(t) <= EXCERPT_MAX_CHARS ==> r == t
            &&& utf16_len(t) > EXCERPT_MAX_CHARS ==> {
                &&& r.len() > 0
                &&& r.last() == '\u{2026}'
                &&& utf16_len(r) <= EXCERPT_MAX_CHARS
                &&& r.len() - 1 <= t.len()
                &&& r.drop_last() == t.take(r.len() - 1)
            }
            &&& ws_clean(r)
        }),
{
    lemma_title_clean(raw);
    law_excerpt_within_limit(raw);
    let t = normalize_title_spec(raw);
    let max = EXCERPT_MAX_CHARS as nat;
    if utf16_len(t) > max {
        let budget = (max - 1) as nat;
        assert(t.take(0) =~= Seq::<char>::empty());
        lemma_fit_from(t, budget, 0, 0);
        let n = fit_from(t, budget, 0, 0);
        let acc = t.take(n);
        lemma_last_ws_range(acc);
        let m: int = match last_ws(acc) {
            Some(w) => if acc.len() - w <= 40 {
                lemma_drop_end_shape(acc.take(w), ws_pred())
            } else {
                n
            },
            None => n,
        };
        let base = match last_ws(acc) {
            Some(w) => if acc.len() - w <= 40 {
                trim_end_seq(acc.take(w))
            } else {
                acc
            },
            None => acc,
        };
        assert(0 <= m <= n);
        assert(base =~= t.take(m));
        let r = base.push('\u{2026}');
        assert(r == normalize_spec(raw));
        assert(r.drop_last() =~= t.take(m));
        assert(!is_ws('\u{2026}'));
        assert forall|i: int| 0 <= i < r.len() - 1 implies !(is_ws(#[trigger] r[i]) && is_ws(r[i + 1])) by {
            if i < m - 1 {
                assert(r[i] == t[i] && r[i + 1] == t[i + 1]);
            } else {
                assert(r[i + 1] == '\u{2026}');
            }
        }
        if m > 0 {
            assert(r[0] == t[0]);
        }
    }
}

/// No `&#` anywhere in the text.
pub open spec fn no_reference_start(s: Seq<char>) -> bool {
    forall|i: int| 0 <= i < s.len() - 1 ==> !(#[trigger] s[i] == '&' && s[i + 1] == '#')
}

proof fn lemma_decode_from_plain(s: Seq<char>, i: int)
    requires
        0 <= i <= s.len(),
        no_reference_start(s),
    ensures
        decode_from(s, i) == s.subrange(i, s.len() as int),
    decreases s.len() - i,
{
    if i < s.len() {
        assert(reference_at(s, i) is None);
        lemma_decode_from_plain(s, i + 1);
        assert(seq![s[i]] + s.subrange(i + 1, s.len() as int) =~= s.subrange(i, s.len() as int));
    } else {
        assert(s.subrange(i, s.len() as int) =~= Seq::<char>::empty());
    }
}

/// Decoding numeric references leaves a text without `&#` unchanged, and turns
/// a well-formed reference (`&#` decimal digits `;`, or `&#x` hexadecimal
/// digits `;`, any number of them) naming a Unicode scalar value into that
/// character.
pub proof fn law_decode_references(s: Seq<char>, i: int, p: int)
    ensures
        no_reference_start(s) ==> decode_spec(s) == s,
        ({
            let code = reference_code(s.subrange(i + 2, p));
            0 <= i && i + 2 < p < s.len() && s[i] == '&' && s[i + 1] == '#' && s[p] == ';'
                && (forall|k: int| i + 2 <= k < p ==> #[trigger] s[k] != ';') && code is Some
                && scalar_of(code->0) is Some ==> reference_at(s, i) == Some(
                (scalar_of(code->0)->0, p + 1),
            )
        }),
{
    if no_reference_start(s) {
        lemma_decode_from_plain(s, 0);
        assert(s.subrange(0, s.len() as int) =~= s);
    }
    if 0 <= i && i + 2 < p < s.len() && s[i] == '&' && s[i + 1] == '#' && s[p] == ';' && (forall|
        k: int,
    | i + 2 <= k < p ==> #[trigger] s[k] != ';') {
        lemma_scan_to(s, i + 2, p);
    }
}

proof fn lemma_scan_to(s: Seq<char>, q: int, p: int)
    requires
        0 <= q <= p < s.len(),
        s[p] == ';',
        forall|k: int| q <= k < p ==> #[trigger] s[k] != ';',
    ensures
        semicolon_scan(s, q) == p,
    decreases p - q,
{
    if q < p {
        lemma_scan_to(s, q + 1, p);
    }
}

// ---------------- slugs ----------------

proof fn lemma_slug_state_chars(raw: Seq<char>)
    ensures
        forall|i: int|
            0 <= i < slug_state(raw).0.len() ==> slug_char_allowed(#[trigger] slug_state(raw).0[i]),
    decreases raw.len(),
{
    if raw.len() > 0 {
        lemma_slug_state_chars(raw.drop_last());
        let out = slug_state(raw.drop_last()).0;
        let r = slug_state(raw).0;
        assert(slug_char_allowed('-'));
        assert forall|i: int| 0 <= i < r.len() implies slug_char_allowed(#[trigger] r[i]) by {
            if i < out.len() {
                assert(r[i] == out[i]);
            }
        }
    }
}

proof fn lemma_nat_digits_chars(n: nat)
    ensures
        nat_digits(n).len() > 0,
        forall|i: int| 0 <= i < nat_digits(n).len() ==> is_ascii_alnum(#[trigger] nat_digits(n)[i]),
    decreases n,
{
    if n >= 10 {
        lemma_nat_digits_chars(n / 10);
        let d = (n % 10) as int;
        assert(is_ascii_alnum(digit_char(d)));
    } else {
        assert(is_ascii_alnum(digit_char(n as int)));
    }
}

/// A sanitised slug is never empty, uses only the characters Strapi accepts,
/// and neither starts nor ends with a dash.
pub proof fn law_slug_shape(raw: Seq<char>, wp_id: i64)
    ensures
        sanitize_slug_spec(raw, wp_id).len() > 0,
        forall|i: int|
            0 <= i < sanitize_slug_spec(raw, wp_id).len() ==> slug_char_allowed(
                #[trigger] sanitize_slug_spec(raw, wp_id)[i],
            ),
        sanitize_slug_spec(raw, wp_id)[0] != '-',
        sanitize_slug_spec(raw, wp_id).last() != '-',
{
    let st = slug_state(raw).0;
    lemma_slug_state_chars(raw);
    let dash = is_char_pred('-');
    let i = lemma_drop_start_shape(st, dash);
    let u = drop_while_start(st, dash);
    let j = lemma_drop_end_shape(u, dash);
    let t = trim_char_seq(st, '-');
    assert(t == u.subrange(0, j));
    if t.len() > 0 {
        assert(t[0] == u[0]);
        assert(forall|k: int| 0 <= k < t.len() ==> #[trigger] t[k] == st[i + k]);
    } else {
        reveal_strlit("post-");
        let d = int_decimal(wp_id as int);
        let r = "post-"@ + d;
        if wp_id < 0 {
            lemma_nat_digits_chars((-(wp_id as int)) as nat);
            assert(d == seq!['-'] + nat_digits((-(wp_id as int)) as nat));
        } else {
            lemma_nat_digits_chars(wp_id as nat);
        }
        assert(forall|k: int| 0 <= k < d.len() ==> slug_char_allowed(#[trigger] d[k]));
        assert(r.last() == d.last());
        assert(forall|k: int| 0 <= k < r.len() ==> slug_char_allowed(#[trigger] r[k])) by {
            assert forall|k: int| 0 <= k < r.len() implies slug_char_allowed(#[trigger] r[k]) by {
                if k >= 5 {
                    assert(r[k] == d[k - 5]);
                }
            }
        }
    }
}

/// No dash right after another dash.
pub open spec fn no_double_dash(s: Seq<char>) -> bool {
    forall|i: int| 0 <= i < s.len() - 1 ==> !(#[trigger] s[i] == '-' && s[i + 1] == '-')
}

proof fn lemma_slug_state_dashes(raw: Seq<char>)
    requires
        forall|i: int| 0 <= i < raw.len() ==> #[trigger] raw[i] == '-' || !slug_char_allowed(raw[i]),
    ensures
        forall|i: int| 0 <= i < slug_state(raw).0.len() ==> #[trigger] slug_state(raw).0[i] == '-',
    decreases raw.len(),
{
    if raw.len() > 0 {
        let d = raw.drop_last();
        assert forall|i: int| 0 <= i < d.len() implies #[trigger] d[i] == '-' || !slug_char_allowed(d[i]) by {
            assert(d[i] == raw[i]);
        }
        lemma_slug_state_dashes(d);
        let out = slug_state(d).0;
        let r = slug_state(raw).0;
        assert(raw.last() == raw[raw.len() - 1]);
        assert forall|i: int| 0 <= i < r.len() implies #[trigger] r[i] == '-' by {
            if i < out.len() {
                assert(r[i] == out[i]);
            }
        }
    }
}

proof fn lemma_drop_all_dashes(s: Seq<char>)
    requires
        forall|i: int| 0 <= i < s.len() ==> #[trigger] s[i] == '-',
    ensures
        drop_while_start(s, is_char_pred('-')).len() == 0,
    decreases s.len(),
{
    if s.len() > 0 {
        let t = s.subrange(1, s.len() as int);
        assert forall|i: int| 0 <= i < t.len() implies #[trigger] t[i] == '-' by {
            assert(t[i] == s[i + 1]);
        }
        lemma_drop_all_dashes(t);
    }
}

proof fn lemma_slug_state_identity(s: Seq<char>)
    requires
        forall|i: int| 0 <= i < s.len() ==> slug_char_allowed(#[trigger] s[i]),
        no_double_dash(s),
    ensures
        slug_state(s).0 == s,
        slug_state(s).1 == (s.len() > 0 && s.last() == '-'),
    decreases s.len(),
{
    if s.len() > 0 {
        let d = s.drop_last();
        assert forall|i: int| 0 <= i < d.len() implies slug_char_allowed(#[trigger] d[i]) by {
            assert(d[i] == s[i]);
        }
        assert forall|i: int| 0 <= i < d.len() - 1 implies !(#[trigger] d[i] == '-' && d[i + 1] == '-') by {
            assert(d[i] == s[i] && d[i + 1] == s[i + 1]);
        }
        lemma_slug_state_identity(d);
        assert(slug_char_allowed(s[s.len() - 1]));
        if d.len() > 0 {
            assert(d.last() == s[s.len() - 2]);
        }
        assert(d.push(s.last()) =~= s);
    }
}

proof fn lemma_slug_state_no_double(raw: Seq<char>)
    ensures
        no_double_dash(slug_state(raw).0),
        slug_state(raw).1 == (slug_state(raw).0.len() > 0 && slug_state(raw).0.last() == '-'),
    decreases raw.len(),
{
    if raw.len() > 0 {
        let d = raw.drop_last();
        lemma_slug_state_no_double(d);
        let out = slug_state(d).0;
        let r = slug_state(raw).0;
        if r.len() > out.len() {
            assert forall|i: int| 0 <= i < r.len() - 1 implies !(#[trigger] r[i] == '-' && r[i + 1] == '-') by {
                if i < out.len() - 1 {
                    assert(r[i] == out[i] && r[i + 1] == out[i + 1]);
                } else {
                    assert(r[i] == out.last());
                }
            }
        }
    }
}

/// A sanitised slug falls back to `post-<wpId>` when the raw slug has no
/// character Strapi accepts other than dashes; for an id that is not negative,
/// no two dashes ever meet in it and sanitising it again changes nothing.
pub proof fn law_slug_fallback_and_idempotence(raw: Seq<char>, wp_id: i64)
    ensures
        (forall|i: int| 0 <= i < raw.len() ==> #[trigger] raw[i] == '-' || !slug_char_allowed(raw[i]))
            ==> sanitize_slug_spec(raw, wp_id) == "post-"@ + int_decimal(wp_id as int),
        wp_id >= 0 ==> no_double_dash(sanitize_slug_spec(raw, wp_id)),
        wp_id >= 0 ==> sanitize_slug_spec(sanitize_slug_spec(raw, wp_id), wp_id) == sanitize_slug_spec(
            raw,
            wp_id,
        ),
{
    let dash = is_char_pred('-');
    let st = slug_state(raw).0;
    if forall|i: int| 0 <= i < raw.len() ==> #[trigger] raw[i] == '-' || !slug_char_allowed(raw[i]) {
        lemma_slug_state_dashes(raw);
        lemma_drop_all_dashes(st);
        let u = drop_while_start(st, dash);
        assert(drop_while_end(u, dash) == u);
    }
    let r = sanitize_slug_spec(raw, wp_id);
    law_slug_shape(raw, wp_id);
    if wp_id >= 0 {
        // No two dashes meet.
        lemma_slug_state_no_double(raw);
        let i = lemma_drop_start_shape(st, dash);
        let u = drop_while_start(st, dash);
        let j = lemma_drop_end_shape(u, dash);
        let t = trim_char_seq(st, '-');
        assert(t == u.subrange(0, j));
        if t.len() > 0 {
            assert forall|k: int| 0 <= k < t.len() - 1 implies !(#[trigger] t[k] == '-' && t[k + 1] == '-') by {
                assert(t[k] == st[i + k] && t[k + 1] == st[i + k + 1]);
            }
        } else {
            reveal_strlit("post-");
            let d = int_decimal(wp_id as int);
            lemma_nat_digits_chars(wp_id as nat);
            let q = "post-"@ + d;
            assert forall|k: int| 0 <= k < q.len() - 1 implies !(#[trigger] q[k] == '-' && q[k + 1] == '-') by {
                if k >= 4 {
                    assert(q[k + 1] == d[k - 4]);
                    assert(is_ascii_alnum(d[k - 4]));
                } else {
                    assert(q[k] == "post-"@[k]);
                }
            }
        }
        // Idempotence.
        assert(no_double_dash(r));
        lemma_slug_state_identity(r);
        assert(drop_while_start(r, dash) == r);
        assert(drop_while_end(r, dash) == r);
        assert(trim_char_seq(slug_state(r).0, '-') == r);
    }
}

// ---------------- whitespace collapsing ----------------

pub open spec fn collapsed_ok(out: Seq<char>, flag: bool) -> bool {
    &&& flag == (out.len() > 0 && out.last() == ' ')
    &&& forall|i: int| 0 <= i < out.len() && is_ws(#[trigger] out[i]) ==> out[i] == ' '
    &&& forall|i: int| 0 <= i < out.len() - 1 ==> !(#[trigger] out[i] == ' ' && out[i + 1] == ' ')
    &&& out.len() > 0 ==> out[0] != ' '
}

proof fn lemma_collapse_state(s: Seq<char>)
    ensures
        collapsed_ok(collapse_state(s).0, collapse_state(s).1),
    decreases s.len(),
{
    if s.len() > 0 {
        lemma_collapse_state(s.drop_last());
        let (out, flag) = collapse_state(s.drop_last());
        let c = s.last();
        if c == '\r' {
        } else if is_ws(c) {
            if !flag && out.len() > 0 {
                let o2 = out.push(' ');
                assert forall|i: int| 0 <= i < o2.len() - 1 implies !(#[trigger] o2[i] == ' ' && o2[i + 1] == ' ') by {
                    if i == out.len() - 1 {
                        assert(o2[i] == out.last());
                    } else {
                        assert(o2[i] == out[i] && o2[i + 1] == out[i + 1]);
                    }
                }
                assert forall|i: int| 0 <= i < o2.len() && is_ws(#[trigger] o2[i]) implies o2[i] == ' ' by {
                    if i < out.len() {
                        assert(o2[i] == out[i]);
                    }
                }
            }
        } else {
            let o2 = out.push(c);
            assert forall|i: int| 0 <= i < o2.len() - 1 implies !(#[trigger] o2[i] == ' ' && o2[i + 1] == ' ') by {
                if i < out.len() - 1 {
                    assert(o2[i] == out[i] && o2[i + 1] == out[i + 1]);
                }
            }
            assert forall|i: int| 0 <= i < o2.len() && is_ws(#[trigger] o2[i]) implies o2[i] == ' ' by {
                if i < out.len() {
                    assert(o2[i] == out[i]);
                }
            }
            assert(is_ws(' '));
        }
    }
}

/// Collapsed text has no whitespace at either end, no two whitespace
/// characters in a row, and no whitespace other than plain spaces.
#[verifier::spinoff_prover]
#[verifier::rlimit(30)]
pub proof fn law_collapsed_text_shape(s: Seq<char>)
    ensures
        ({
            let r = collapse_spec(s);
            &&& r.len() > 0 ==> !is_ws(r[0]) && !is_ws(r.last())
            &&& forall|i: int| 0 <= i < r.len() - 1 ==> !(is_ws(#[trigger] r[i]) && is_ws(r[i + 1]))
            &&& forall|i: int| 0 <= i < r.len() && is_ws(#[trigger] r[i]) ==> r[i] == ' '
        }),
{
    lemma_collapse_state(s);
    let out = collapse_state(s).0;
    let i0 = lemma_drop_start_shape(out, ws_pred());
    let u = drop_while_start(out, ws_pred());
    let j0 = lemma_drop_end_shape(u, ws_pred());
    let r = collapse_spec(s);
    assert(r == u.subrange(0, j0));
    assert(forall|k: int| 0 <= k < r.len() ==> #[trigger] r[k] == out[i0 + k]);
    assert forall|i: int| 0 <= i < r.len() - 1 implies !(is_ws(#[trigger] r[i]) && is_ws(r[i + 1])) by {
        assert(r[i] == out[i0 + i] && r[i + 1] == out[i0 + i + 1]);
    }
    if r.len() > 0 {
        assert(r[0] == u[0]);
    }
}


// ---------------- upload batches ----------------

/// The batches one after the other.
pub open spec fn concat_batches(bs: Seq<Seq<int>>) -> Seq<int>
    decreases bs.len(),
{
    if bs.len() == 0 {
        Seq::empty()
    } else {
        concat_batches(bs.drop_last()) + bs.last()
    }
}

/// Bytes a batch sends: each item's data plus the per-file overhead.
pub open spec fn batch_bytes(sizes: Seq<nat>, b: Seq<int>) -> int
    decreases b.len(),
{
    if b.len() == 0 {
        0
    } else {
        batch_bytes(sizes, b.drop_last()) + sizes[b.last()] + PER_FILE_OVERHEAD
    }
}

pub open spec fn batches_ok(sizes: Seq<nat>, max: nat, bs: Seq<Seq<int>>, cur: nat) -> bool {
    &&& bs.len() >= 1
    &&& concat_batches(bs) == Seq::new(sizes.len(), |i: int| i)
    &&& cur == batch_bytes(sizes, bs.last())
    &&& forall|k: int| 0 <= k < bs.len() ==> batch_bytes(sizes, #[trigger] bs[k]) <= max
    &&& sizes.len() > 0 ==> forall|k: int| 0 <= k < bs.len() ==> (#[trigger] bs[k]).len() > 0
}

proof fn lemma_batch_bytes_prefix(sizes: Seq<nat>, x: nat, b: Seq<int>)
    requires
        forall|k: int| 0 <= k < b.len() ==> 0 <= #[trigger] b[k] < sizes.len(),
    ensures
        batch_bytes(sizes.push(x), b) == batch_bytes(sizes, b),
    decreases b.len(),
{
    if b.len() > 0 {
        lemma_batch_bytes_prefix(sizes, x, b.drop_last());
    }
}

proof fn lemma_concat_members(bs: Seq<Seq<int>>, k: int, m: int)
    requires
        0 <= k < bs.len(),
        0 <= m < bs[k].len(),
    ensures
        concat_batches(bs).contains(bs[k][m]),
    decreases bs.len(),
{
    if k < bs.len() - 1 {
        lemma_concat_members(bs.drop_last(), k, m);
        let c = concat_batches(bs.drop_last());
        let j = choose|j: int| 0 <= j < c.len() && c[j] == bs[k][m];
        assert(concat_batches(bs)[j] == c[j]);
    } else {
        let c = concat_batches(bs.drop_last());
        assert(concat_batches(bs)[c.len() + m] == bs.last()[m]);
    }
}

/// Splitting uploads into batches keeps every batch within the payload limit
/// and sends every item exactly once, in order; it fails only on an item that
/// is too large for any batch.
pub proof fn law_upload_batches(sizes: Seq<nat>, max: nat)
    ensures
        match batch_state(sizes, max) {
            Ok((bs, cur)) => batches_ok(sizes, max, bs, cur),
            Err(i) => 0 <= i < sizes.len() && sizes[i] + PER_FILE_OVERHEAD > max,
        },
    decreases sizes.len(),
{
    if sizes.len() == 0 {
        let bs = seq![Seq::<int>::empty()];
        assert(bs.drop_last() =~= Seq::<Seq<int>>::empty());
        assert(concat_batches(Seq::<Seq<int>>::empty()) == Seq::<int>::empty());
        assert(bs.last() == Seq::<int>::empty());
        assert(concat_batches(bs) =~= Seq::<int>::empty());
        assert(concat_batches(bs) =~= Seq::new(0, |i: int| i));
    } else {
        let prev = sizes.drop_last();
        law_upload_batches(prev, max);
        match batch_state(prev, max) {
            Err(i) => {},
            Ok((bs, cur)) => {
                let i = sizes.len() - 1;
                let item = sizes.last() + PER_FILE_OVERHEAD;
                assert(sizes == prev.push(sizes.last()));
                // Every position in the earlier batches is below i.
                assert forall|k: int, m: int| 0 <= k < bs.len() && 0 <= m < bs[k].len() implies 0 <= #[trigger] bs[k][m] < prev.len() by {
                    lemma_concat_members(bs, k, m);
                    let c = concat_batches(bs);
                    let j = choose|j: int| 0 <= j < c.len() && c[j] == bs[k][m];
                    assert(c[j] == j);
                }
                assert forall|k: int| 0 <= k < bs.len() implies batch_bytes(sizes, #[trigger] bs[k]) == batch_bytes(prev, bs[k]) by {
                    lemma_batch_bytes_prefix(prev, sizes.last(), bs[k]);
                }
                if item > max {
                } else if cur + item > max && bs.last().len() > 0 {
                    let nb = bs.push(seq![i]);
                    assert(nb.drop_last() =~= bs);
                    assert(concat_batches(nb) =~= Seq::new(sizes.len(), |j: int| j));
                    assert(seq![i].drop_last() =~= Seq::<int>::empty());
                    assert(seq![i].last() == i);
                    assert(sizes[i] == sizes.last());
                    assert(batch_bytes(sizes, Seq::<int>::empty()) == 0);
                    assert(batch_bytes(sizes, seq![i]) == item);
                    assert forall|k: int| 0 <= k < nb.len() implies batch_bytes(sizes, #[trigger] nb[k]) <= max by {
                        if k < bs.len() {
                            assert(nb[k] == bs[k]);
                        }
                    }
                } else {
                    let l = bs.last().push(i);
                    let nb = bs.update(bs.len() - 1, l);
                    assert(nb.drop_last() =~= bs.drop_last());
                    assert(concat_batches(bs) == concat_batches(bs.drop_last()) + bs.last());
                    assert(nb.last() == l);
                    assert(concat_batches(nb) == concat_batches(bs.drop_last()) + l);
                    assert(concat_batches(bs.drop_last()) + l =~= (concat_batches(bs.drop_last())
                        + bs.last()).push(i));
                    assert(Seq::new(sizes.len(), |j: int| j) =~= Seq::new(prev.len(), |j: int| j).push(i));
                    assert(concat_batches(nb) =~= Seq::new(sizes.len(), |j: int| j));
                    assert(l.drop_last() =~= bs.last());
                    assert(batch_bytes(sizes, l) == batch_bytes(sizes, bs.last()) + item);
                    assert(batch_bytes(sizes, bs.last()) == cur);
                    if prev.len() == 0 {
                        assert(bs.last().len() == 0) by {
                            assert(concat_batches(bs).len() == 0);
                            assert(concat_batches(bs) == concat_batches(bs.drop_last()) + bs.last());
                        }
                        assert(cur == 0);
                    }
                    assert forall|k: int| 0 <= k < nb.len() implies batch_bytes(sizes, #[trigger] nb[k]) <= max by {
                        if k < bs.len() - 1 {
                            assert(nb[k] == bs[k]);
                        }
                    }
                    assert forall|k: int| 0 <= k < nb.len() implies (#[trigger] nb[k]).len() > 0 by {
                        if k < bs.len() - 1 {
                            assert(nb[k] == bs[k]);
                        }
                    }
                }
            },
        }
    }
}

// ---------------- reads by id ----------------

/// The first `m` groups of ids one after the other.
pub open spec fn groups_concat(ids: Seq<i64>, m: nat) -> Seq<i64>
    decreases m,
{
    if m == 0 {
        Seq::empty()
    } else {
        groups_concat(ids, (m - 1) as nat) + id_group(ids, m - 1)
    }
}

/// Reading posts by id requests every id exactly once, in order, in groups of
/// at most 100.
pub proof fn law_id_groups_cover(ids: Seq<i64>)
    ensures
        groups_concat(ids, ((ids.len() + 99) / 100) as nat) == ids,
        forall|k: int| 0 <= k < (ids.len() + 99) / 100 ==> (#[trigger] id_group(ids, k)).len() <= 100,
{
    let n = ids.len() as int;
    let g = (n + 99) / 100;
    assert forall|m: int| 0 <= m <= g implies #[trigger] groups_concat(ids, m as nat) == ids.subrange(
        0,
        if 100 * m <= n {
            100 * m
        } else {
            n
        },
    ) by {
        lemma_groups_prefix(ids, m as nat);
    }
    assert(100 * g >= n);
    lemma_groups_prefix(ids, g as nat);
    assert(ids.subrange(0, n) =~= ids);
}

proof fn lemma_groups_prefix(ids: Seq<i64>, m: nat)
    requires
        m <= (ids.len() + 99) / 100,
    ensures
        groups_concat(ids, m) == ids.subrange(
            0,
            if 100 * m <= ids.len() {
                100 * m as int
            } else {
                ids.len() as int
            },
        ),
    decreases m,
{
    if m > 0 {
        lemma_groups_prefix(ids, (m - 1) as nat);
        assert(100 * (m - 1) < ids.len());
        assert(groups_concat(ids, m) =~= ids.subrange(
            0,
            if 100 * m <= ids.len() {
                100 * m as int
            } else {
                ids.len() as int
            },
        ));
    } else {
        assert(ids.subrange(0, 0) =~= Seq::<i64>::empty());
    }
}


// ---------------- users and authors ----------------

/// A bulk request that gets no response, or a non-2xx one, fails every user of
/// its batch, in batch order, with one shared reason.
pub proof fn law_failed_batch_fails_everyone(chunk: Seq<User>, reply: BulkUsersReply)
    requires
        !(reply matches BulkUsersReply::Response { status, .. } && 200 <= status < 300),
    ensures
        batch_failures_spec(chunk, reply).len() == chunk.len(),
        forall|i: int|
            0 <= i < chunk.len() ==> (#[trigger] batch_failures_spec(chunk, reply)[i]).0
                == chunk[i].wp_id,
        forall|i: int|
            0 <= i < chunk.len() ==> (#[trigger] batch_failures_spec(chunk, reply)[i]).1
                == batch_failures_spec(chunk, reply)[0].1,
        batch_successes_spec(reply).len() == 0,
{
}

/// The bulk batches follow one another without gap or overlap from the first
/// user on, each non-empty and holding at most the batch size (a size of 0
/// counting as 1); the batch that reaches the last user is the last one.
pub proof fn law_batches_partition(n: nat, size: nat, k: int)
    requires
        0 <= k,
        batch_range(n, size, k).0 < n,
    ensures
        batch_range(n, size, 0).0 == 0,
        batch_range(n, size, k).0 < batch_range(n, size, k).1 <= n,
        batch_range(n, size, k).1 - batch_range(n, size, k).0 <= if size == 0 {
            1
        } else {
            size as int
        },
        batch_range(n, size, k).1 < n ==> batch_range(n, size, k + 1).0 == batch_range(
            n,
            size,
            k,
        ).1,
        batch_range(n, size, k).1 == n ==> batch_range(n, size, k + 1).0 >= n,
{
    let s: int = if size == 0 {
        1
    } else {
        size as int
    };
    assert((k + 1) * s == k * s + s) by (nonlinear_arith);
    assert((k + 2) * s == (k + 1) * s + s) by (nonlinear_arith);
    assert(0 * s == 0) by (nonlinear_arith);
}

/// An author is only ever recorded as created with a positive Strapi id.
pub proof fn law_author_created_positive(reply: AuthorReply, r: AuthorOutcome)
    requires
        author_outcome_ok(reply, r),
    ensures
        r matches AuthorOutcome::Created(id) ==> id > 0,
{
}

// ---------------- article phase ----------------

/// A post recorded as migrated is skipped by every later run.
pub proof fn law_migrated_post_is_skipped(done: Set<i64>, post_id: i64)
    ensures
        done.insert(post_id).contains(post_id),
        forall|other: i64| done.contains(other) ==> done.insert(post_id).contains(other),
{
}

/// Saving the partial state of an article and then removing it leaves no
/// partial state for that article, and the others untouched.
pub proof fn law_partial_save_then_remove(
    m: Map<i64, PartialArticleRecord>,
    r: PartialArticleRecord,
)
    ensures
        m.insert(r.wp_post_id, r).remove(r.wp_post_id) == m.remove(r.wp_post_id),
{
    assert(m.insert(r.wp_post_id, r).remove(r.wp_post_id) =~= m.remove(r.wp_post_id));
}


// ---------------- what the operations are for ----------------

/// The text nodes among the descendants of node `k` from position `j` on: the
/// nodes after `k` that are deeper than `k`, up to the first that is not.
pub open spec fn descendant_text(nodes: Seq<PreNode>, k: int, j: int) -> Seq<char>
    decreases nodes.len() - j,
{
    if j < 0 || j >= nodes.len() || nodes[j].depth <= nodes[k].depth {
        Seq::empty()
    } else {
        let here = match nodes[j].node {
            HtmlNode::Text(t) => t@,
            _ => Seq::empty(),
        };
        here + descendant_text(nodes, k, j + 1)
    }
}

proof fn lemma_descendant_text(nodes: Seq<PreNode>, k: int, j: int)
    requires
        0 <= k < j <= nodes.len(),
    ensures
        text_in(nodes, j, subtree_end_from(nodes, k, j)) == descendant_text(nodes, k, j),
    decreases nodes.len() - j,
{
    if j >= nodes.len() || nodes[j].depth <= nodes[k].depth {
    } else {
        lemma_descendant_text(nodes, k, j + 1);
        crate::html::lemma_subtree_end_bounds(nodes, k, j + 1);
    }
}

/// The text of a CTA block is the text of every text node in the whole subtree
/// of the CTA element, in document order, with whitespace runs collapsed to
/// single spaces; its link is the element's `href`.
pub proof fn law_cta_text_is_whole_subtree(nodes: Seq<PreNode>, k: int, idx: i32)
    requires
        0 <= k < nodes.len(),
        is_cta_node(nodes[k].node),
    ensures
        cta_block_spec(nodes, k, idx).text == join_words(descendant_text(nodes, k, k + 1)),
        cta_block_spec(nodes, k, idx).href == crate::html::attr_or_empty(nodes[k].node, "href"@),
{
    lemma_descendant_text(nodes, k, k + 1);
    crate::html::lemma_subtree_end_bounds(nodes, k, k + 1);
    let e = subtree_end(nodes, k);
    assert(text_in(nodes, k, e) == Seq::<char>::empty() + text_in(nodes, k + 1, e));
    assert(Seq::<char>::empty() + text_in(nodes, k + 1, e) =~= text_in(nodes, k + 1, e));
}

/// Tags mapped with the given kind.
pub open spec fn tag_of_kind(v: MappingView, kind: MappingType) -> spec_fn(i64) -> bool {
    |t: i64| v.performers_studios.contains_key(t) && v.performers_studios[t].0 == kind
}

/// The document id a tag is mapped to.
pub open spec fn tag_doc(v: MappingView) -> spec_fn(i64) -> Seq<char> {
    |t: i64| v.performers_studios[t].1
}

proof fn lemma_mapped_ids_filter(tags: Seq<i64>, v: MappingView, kind: MappingType)
    ensures
        mapped_ids(tags, v, kind) == tags.filter(tag_of_kind(v, kind)).map_values(tag_doc(v)),
    decreases tags.len(),
{
    reveal(Seq::filter);
    if tags.len() > 0 {
        lemma_mapped_ids_filter(tags.drop_last(), v, kind);
        let f = tags.drop_last().filter(tag_of_kind(v, kind));
        assert(f.push(tags.last()).map_values(tag_doc(v)) =~= f.map_values(tag_doc(v)).push(
            tag_doc(v)(tags.last()),
        ));
    }
}

/// The payload links exactly the post's tags mapped as performers (as
/// performers) and exactly those mapped as studios (as studios), each by its
/// document id, in tag order: a tag mapped with the other kind never appears.
pub proof fn law_payload_links_by_kind(
    post: WpPost,
    rebuilt: Seq<char>,
    blocks: Seq<BlockView>,
    v: MappingView,
)
    ensures
        transform_spec(post, rebuilt, blocks, v).ds_performers == post.tag_ids@.filter(
            tag_of_kind(v, MappingType::Performer),
        ).map_values(tag_doc(v)),
        transform_spec(post, rebuilt, blocks, v).ds_studios == post.tag_ids@.filter(
            tag_of_kind(v, MappingType::Studio),
        ).map_values(tag_doc(v)),
{
    lemma_mapped_ids_filter(post.tag_ids@, v, MappingType::Performer);
    lemma_mapped_ids_filter(post.tag_ids@, v, MappingType::Studio);
}

/// Every element name of the block list (any ASCII case) is a block element, so
/// the text after it is separated by a space: `br`, `p`, `div`, `li`, `section`,
/// `article`, `blockquote`, `header`, `footer`, `tr`, `td`, `th`, `ul`, `ol` and
/// `h1` to `h6`.
pub proof fn law_block_elements(t: Seq<char>)
    ensures
        eq_ignore_case("br"@, t) || eq_ignore_case("p"@, t) || eq_ignore_case("div"@, t)
            || eq_ignore_case("li"@, t) || eq_ignore_case("section"@, t) || eq_ignore_case(
            "article"@,
            t,
        ) || eq_ignore_case("blockquote"@, t) || eq_ignore_case("header"@, t) || eq_ignore_case(
            "footer"@,
            t,
        ) || eq_ignore_case("tr"@, t) || eq_ignore_case("td"@, t) || eq_ignore_case("th"@, t)
            || eq_ignore_case("ul"@, t) || eq_ignore_case("ol"@, t) || eq_ignore_case("h1"@, t)
            || eq_ignore_case("h2"@, t) || eq_ignore_case("h3"@, t) || eq_ignore_case("h4"@, t)
            || eq_ignore_case("h5"@, t) || eq_ignore_case("h6"@, t) ==> is_block_spec(t),
{
    let l = block_tag_list();
    assert(l[0] == "br" && l[1] == "p" && l[2] == "div" && l[3] == "li" && l[4] == "section");
    assert(l[5] == "article" && l[6] == "blockquote" && l[7] == "header" && l[8] == "footer");
    assert(l[9] == "tr" && l[10] == "td" && l[11] == "th" && l[12] == "ul" && l[13] == "ol");
    assert(l[14] == "h1" && l[15] == "h2" && l[16] == "h3" && l[17] == "h4" && l[18] == "h5");
    assert(l[19] == "h6");
    if eq_ignore_case("br"@, t) { assert(eq_ignore_case(l[0]@, t)); }
    if eq_ignore_case("p"@, t) { assert(eq_ignore_case(l[1]@, t)); }
    if eq_ignore_case("div"@, t) { assert(eq_ignore_case(l[2]@, t)); }
    if eq_ignore_case("li"@, t) { assert(eq_ignore_case(l[3]@, t)); }
    if eq_ignore_case("section"@, t) { assert(eq_ignore_case(l[4]@, t)); }
    if eq_ignore_case("article"@, t) { assert(eq_ignore_case(l[5]@, t)); }
    if eq_ignore_case("blockquote"@, t) { assert(eq_ignore_case(l[6]@, t)); }
    if eq_ignore_case("header"@, t) { assert(eq_ignore_case(l[7]@, t)); }
    if eq_ignore_case("footer"@, t) { assert(eq_ignore_case(l[8]@, t)); }
    if eq_ignore_case("tr"@, t) { assert(eq_ignore_case(l[9]@, t)); }
    if eq_ignore_case("td"@, t) { assert(eq_ignore_case(l[10]@, t)); }
    if eq_ignore_case("th"@, t) { assert(eq_ignore_case(l[11]@, t)); }
    if eq_ignore_case("ul"@, t) { assert(eq_ignore_case(l[12]@, t)); }
    if eq_ignore_case("ol"@, t) { assert(eq_ignore_case(l[13]@, t)); }
    if eq_ignore_case("h1"@, t) { assert(eq_ignore_case(l[14]@, t)); }
    if eq_ignore_case("h2"@, t) { assert(eq_ignore_case(l[15]@, t)); }
    if eq_ignore_case("h3"@, t) { assert(eq_ignore_case(l[16]@, t)); }
    if eq_ignore_case("h4"@, t) { assert(eq_ignore_case(l[17]@, t)); }
    if eq_ignore_case("h5"@, t) { assert(eq_ignore_case(l[18]@, t)); }
    if eq_ignore_case("h6"@, t) { assert(eq_ignore_case(l[19]@, t)); }
}

/// HTTP statuses classify by range: 408 is a timeout, 429 a rate limit, every
/// status from 500 to 599 a server error (retried), every other status from 400
/// to 499 an invalid request (not retried), and a status is an invalid request
/// only in that range.
pub proof fn law_http_status_classes(status: u16)
    ensures
        status == 408 ==> classify_http_spec(status) == ErrorType::NetworkTimeout,
        status == 429 ==> classify_http_spec(status) == ErrorType::RateLimit,
        500 <= status <= 599 ==> classify_http_spec(status) == ErrorType::ServerError
            && is_retryable_spec(classify_http_spec(status)),
        400 <= status <= 499 && status != 408 && status != 429 ==> classify_http_spec(status)
            == ErrorType::ClientErrorInvalid && !is_retryable_spec(classify_http_spec(status)),
        classify_http_spec(status) == ErrorType::ClientErrorInvalid ==> 400 <= status <= 499,
        classify_http_spec(status) == ErrorType::ServerError ==> 500 <= status <= 599,
{
}

/// A creation reply with fields records what the reply says: its `documentId`
/// (else `attributes.documentId`, else the slug) as the document id, its `id`
/// (else -1), its `Name` and `Slug` (else their `attributes` forms, else the
/// requested ones).
pub proof fn law_created_entity_fields(f: EntityFields, name: Seq<char>, slug: Seq<char>)
    ensures
        ({
            let r = entity_result_spec(EntityResponse::Created(f), name, slug);
            &&& r is Ok
            &&& f.document_id matches Some(d) ==> r->Ok_0.1 == d@
            &&& f.document_id is None && f.attributes_document_id is Some ==> r->Ok_0.1
                == f.attributes_document_id->0@
            &&& f.id matches Some(i) ==> r->Ok_0.0 == i
            &&& f.id is None ==> r->Ok_0.0 == -1
            &&& f.name matches Some(n) ==> r->Ok_0.2 == n@
            &&& f.name is None && f.attributes_name is None ==> r->Ok_0.2 == name
            &&& f.slug matches Some(sl) ==> r->Ok_0.3 == sl@
            &&& f.slug is None && f.attributes_slug is None ==> r->Ok_0.3 == slug
            &&& f.document_id is None && f.attributes_document_id is None ==> r->Ok_0.1 == r->Ok_0.3
        }),
{
}

/// Two sibling elements, each holding a text: when the first is a block element
/// (and neither is a `br`), their texts are separated by a space in the plain
/// text, and a space also follows the second when it is a block element.
pub proof fn law_sibling_block_texts_spaced(
    d: usize,
    n1: String,
    n2: String,
    a: String,
    b: String,
    attrs: Vec<(String, String, String)>,
    html: String,
)
    requires
        d < usize::MAX,
        is_block_spec(n1@),
        !eq_ignore_case(n1@, "br"@),
        !eq_ignore_case(n2@, "br"@),
    ensures
        plain_text_of_nodes(
            seq![
                PreNode { depth: d, node: HtmlNode::Element { name: n1, attrs, outer_html: html } },
                PreNode { depth: (d + 1) as usize, node: HtmlNode::Text(a) },
                PreNode { depth: d, node: HtmlNode::Element { name: n2, attrs, outer_html: html } },
                PreNode { depth: (d + 1) as usize, node: HtmlNode::Text(b) },
            ],
        ) == a@ + " "@ + b@ + if is_block_spec(n2@) {
            " "@
        } else {
            Seq::<char>::empty()
        },
{
    reveal_strlit(" ");
    let e1 = PreNode { depth: d, node: HtmlNode::Element { name: n1, attrs, outer_html: html } };
    let t1 = PreNode { depth: (d + 1) as usize, node: HtmlNode::Text(a) };
    let e2 = PreNode { depth: d, node: HtmlNode::Element { name: n2, attrs, outer_html: html } };
    let t2 = PreNode { depth: (d + 1) as usize, node: HtmlNode::Text(b) };
    let nodes = seq![e1, t1, e2, t2];
    let w0 = TextWalk { stack: Seq::empty(), skip: None, out: Seq::empty() };
    assert(nodes.drop_last().drop_last().drop_last().drop_last() =~= Seq::<PreNode>::empty());
    assert(text_walk(Seq::<PreNode>::empty()) == w0);
    assert(nodes.drop_last().drop_last().drop_last() =~= seq![e1]);
    let w1 = text_step(w0, e1);
    assert(w1.stack =~= seq![(d, true)] && w1.out =~= Seq::<char>::empty() && w1.skip is None);
    assert(text_walk(seq![e1]) == w1);
    assert(nodes.drop_last().drop_last() =~= seq![e1, t1]);
    let w2 = text_step(w1, t1);
    assert(w2.stack =~= seq![(d, true)] && w2.out =~= a@ && w2.skip is None);
    assert(seq![e1, t1].drop_last() =~= seq![e1]);
    assert(text_walk(seq![e1, t1]) == w2);
    let c = close_frames(w2.stack, w2.out, d);
    assert(w2.stack.drop_last() =~= Seq::<(usize, bool)>::empty());
    assert(close_frames(Seq::<(usize, bool)>::empty(), a@.push(' '), d) == (
        Seq::<(usize, bool)>::empty(),
        a@.push(' '),
    ));
    assert(c == close_frames(w2.stack.drop_last(), a@.push(' '), d));
    assert(c.0 =~= Seq::<(usize, bool)>::empty() && c.1 =~= a@.push(' '));
    let w3 = text_step(w2, e2);
    assert(w3.stack =~= seq![(d, is_block_spec(n2@))] && w3.out =~= a@.push(' ') && w3.skip is None);
    assert(nodes.drop_last() =~= seq![e1, t1, e2]);
    assert(seq![e1, t1, e2].drop_last() =~= seq![e1, t1]);
    assert(text_walk(seq![e1, t1, e2]) == w3);
    let w4 = text_step(w3, t2);
    assert(w4.stack =~= seq![(d, is_block_spec(n2@))] && w4.out =~= a@.push(' ') + b@);
    assert(text_walk(nodes) == w4);
    let f = close_frames(w4.stack, w4.out, 0);
    assert(w4.stack.drop_last() =~= Seq::<(usize, bool)>::empty());
    let o4 = a@.push(' ') + b@;
    let o5 = if is_block_spec(n2@) { o4.push(' ') } else { o4 };
    assert(close_frames(Seq::<(usize, bool)>::empty(), o5, 0) == (Seq::<(usize, bool)>::empty(), o5));
    assert(f == close_frames(w4.stack.drop_last(), o5, 0));
    if is_block_spec(n2@) {
        assert(f.1 =~= a@ + " "@ + b@ + " "@);
    } else {
        assert(f.1 =~= a@ + " "@ + b@);
    }
}

pub open spec fn is_cta_block(b: BlockView) -> bool {
    b.block_type == BlockType::Cta
}

pub open spec fn cta_entry_of(b: BlockView) -> (bool, i32, Seq<char>, Seq<char>) {
    (true, b.index, b.text, b.href)
}

proof fn lemma_cta_entries_filter(blocks: Seq<BlockView>)
    ensures
        cta_entries(blocks) == blocks.filter(|b: BlockView| is_cta_block(b)).map_values(
            |b: BlockView| cta_entry_of(b),
        ),
    decreases blocks.len(),
{
    reveal(Seq::filter);
    if blocks.len() > 0 {
        lemma_cta_entries_filter(blocks.drop_last());
        let f = blocks.drop_last().filter(|b: BlockView| is_cta_block(b));
        assert(f.push(blocks.last()).map_values(|b: BlockView| cta_entry_of(b)) =~= f.map_values(
            |b: BlockView| cta_entry_of(b),
        ).push(cta_entry_of(blocks.last())));
    }
}

/// The other fields of the payload follow the post and the mapping tables: the
/// author is the mapped Strapi author id in decimal (empty when unmapped); the
/// sub-category is the sub-category mapping of the post's category, else its
/// category mapping, else empty; the cover is public exactly when its media id
/// is positive; comments are allowed exactly when the post allows them; the
/// date and body are the post's; and the registration CTAs are the CTA blocks,
/// in order, each enabled with its index, text and link.
pub proof fn law_payload_fields(post: WpPost, rebuilt: Seq<char>, blocks: Seq<BlockView>, v: MappingView)
    ensures
        ({
            let p = transform_spec(post, rebuilt, blocks, v);
            &&& v.authors.contains_key(post.author_id) ==> p.ds_author == int_decimal(
                v.authors[post.author_id] as int,
            )
            &&& !v.authors.contains_key(post.author_id) ==> p.ds_author.len() == 0
            &&& v.sub_categories.contains_key(post.categories) ==> p.ds_sub_category
                == v.sub_categories[post.categories]
            &&& !v.sub_categories.contains_key(post.categories) && v.categories.contains_key(
                post.categories,
            ) ==> p.ds_sub_category == v.categories[post.categories]
            &&& !v.sub_categories.contains_key(post.categories) && !v.categories.contains_key(
                post.categories,
            ) ==> p.ds_sub_category.len() == 0
            &&& (p.cover_public is Some <==> post.cover_image.id > 0)
            &&& p.cover_public is Some ==> p.cover_public->0 == post.cover_image.id
            &&& p.cover_alt == post.cover_image.alt_text@
            &&& p.allow_comment == post.comments_enabled
            &&& p.publish_date == post.date@
            &&& p.body == rebuilt
            &&& p.slug == sanitize_slug_spec(post.slug@, post.id)
            &&& p.title == normalize_title_spec(post.title@)
            &&& p.excerpt == normalize_spec(post.excerpt@)
            &&& p.registration_cta_block == blocks.filter(|b: BlockView| is_cta_block(b)).map_values(
                |b: BlockView| cta_entry_of(b),
            )
        }),
{
    lemma_cta_entries_filter(blocks);
}

/// An image block carries its `img` element's `src` (also as its raw HTML) and
/// `alt`, and a CTA block is a CTA with the element's link; each keeps the
/// block number it was given.
pub proof fn law_image_and_cta_block_fields(nodes: Seq<PreNode>, k: int, idx: i32)
    requires
        0 <= k < nodes.len(),
    ensures
        image_block_spec(nodes[k].node, idx).block_type == BlockType::Image,
        image_block_spec(nodes[k].node, idx).index == idx,
        image_block_spec(nodes[k].node, idx).src == crate::html::attr_or_empty(nodes[k].node, "src"@),
        image_block_spec(nodes[k].node, idx).raw_html == crate::html::attr_or_empty(
            nodes[k].node,
            "src"@,
        ),
        image_block_spec(nodes[k].node, idx).alt == crate::html::attr_or_empty(nodes[k].node, "alt"@),
        cta_block_spec(nodes, k, idx).block_type == BlockType::Cta,
        cta_block_spec(nodes, k, idx).index == idx,
{
}

} // verus!
