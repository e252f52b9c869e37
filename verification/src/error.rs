//! Error taxonomy, classification of failures into retry classes, error
//! context records, and the retry policy (which attempt waits how long).
use vstd::prelude::*;

use crate::text::{chars_of, contains_seq, contains_str, extend_chars, string_of};
use crate::json::{char_views, int_text, json_int, json_member, json_object, json_string, member, object, quote};

verus! {

/// The categories of failure the system distinguishes.
#[derive(Debug, Clone, Copy, PartialEq, Eq, Structural)]
pub enum ErrorType {
    NetworkTimeout,
    RateLimit,
    ServerError,
    ClientErrorInvalid,
    ParseError,
    ValidationError,
    ImageDownloadError,
    ImageUploadError,
    ArticlePostError,
    CommentPostError,
    UnknownError,
}

pub open spec fn error_type_name(t: ErrorType) -> Seq<char> {
    match t {
        ErrorType::NetworkTimeout => "NETWORK_TIMEOUT"@,
        ErrorType::RateLimit => "RATE_LIMIT"@,
        ErrorType::ServerError => "SERVER_ERROR"@,
        ErrorType::ClientErrorInvalid => "CLIENT_ERROR_INVALID"@,
        ErrorType::ParseError => "PARSE_ERROR"@,
        ErrorType::ValidationError => "VALIDATION_ERROR"@,
        ErrorType::ImageDownloadError => "IMAGE_DOWNLOAD_ERROR"@,
        ErrorType::ImageUploadError => "IMAGE_UPLOAD_ERROR"@,
        ErrorType::ArticlePostError => "ARTICLE_POST_ERROR"@,
        ErrorType::CommentPostError => "COMMENT_POST_ERROR"@,
        ErrorType::UnknownError => "UNKNOWN_ERROR"@,
    }
}

impl ErrorType {
    /// The upper-case wire name of the category, as written into logs and reports.
    pub fn name(self) -> (r: &'static str)
        ensures
            r@ == error_type_name(self),
    {
        match self {
            ErrorType::NetworkTimeout => "NETWORK_TIMEOUT",
            ErrorType::RateLimit => "RATE_LIMIT",
            ErrorType::ServerError => "SERVER_ERROR",
            ErrorType::ClientErrorInvalid => "CLIENT_ERROR_INVALID",
            ErrorType::ParseError => "PARSE_ERROR",
            ErrorType::ValidationError => "VALIDATION_ERROR",
            ErrorType::ImageDownloadError => "IMAGE_DOWNLOAD_ERROR",
            ErrorType::ImageUploadError => "IMAGE_UPLOAD_ERROR",
            ErrorType::ArticlePostError => "ARTICLE_POST_ERROR",
            ErrorType::CommentPostError => "COMMENT_POST_ERROR",
            ErrorType::UnknownError => "UNKNOWN_ERROR",
        }
    }
}

/// Classification of an HTTP status code.
pub open spec fn classify_http_spec(status: u16) -> ErrorType {
    if status == 408 {
        ErrorType::NetworkTimeout
    } else if status == 429 {
        ErrorType::RateLimit
    } else if 500 <= status <= 599 {
        ErrorType::ServerError
    } else if 400 <= status <= 499 {
        ErrorType::ClientErrorInvalid
    } else {
        ErrorType::UnknownError
    }
}

/// Keyword classification of an already lower-cased message.
pub open spec fn classify_lowered_spec(m: Seq<char>) -> ErrorType {
    if contains_seq(m, "timeout"@) || contains_seq(m, "timed out"@) {
        ErrorType::NetworkTimeout
    } else if contains_seq(m, "econnrefused"@) || contains_seq(m, "connection refused"@) {
        ErrorType::NetworkTimeout
    } else if contains_seq(m, "rate limit"@) || contains_seq(m, "too many requests"@) {
        ErrorType::RateLimit
    } else if contains_seq(m, "parse"@) || contains_seq(m, "json"@) || contains_seq(
        m,
        "malformed"@,
    ) {
        ErrorType::ParseError
    } else if contains_seq(m, "missing"@) || contains_seq(m, "required"@) || contains_seq(
        m,
        "invalid"@,
    ) {
        ErrorType::ValidationError
    } else {
        ErrorType::UnknownError
    }
}

pub open spec fn is_retryable_spec(t: ErrorType) -> bool {
    match t {
        ErrorType::NetworkTimeout | ErrorType::RateLimit | ErrorType::ServerError
        | ErrorType::UnknownError | ErrorType::ImageUploadError
        | ErrorType::ArticlePostError => true,
        _ => false,
    }
}

/// What `str::to_lowercase` returns for a string (full Unicode lower-casing).
pub uninterp spec fn lowercase(s: Seq<char>) -> Seq<char>;

/// `str::to_lowercase`. The contract claims only that the result is a function
/// of the input's characters, named `lowercase`.
#[verifier::external_body]
pub(crate) fn str_to_lowercase(s: &str) -> (r: String)
    ensures
        r@ == lowercase(s@),
{
    s.to_lowercase()
}

#[verifier::external_type_specification]
#[verifier::external_body]
pub struct ExAnyhowError(anyhow::Error);

/// The texts of an error's cause chain, outermost first: what `to_string` gives
/// for each error that `anyhow::Error::chain` yields. They are determined by the
/// error value.
pub uninterp spec fn chain_of(err: anyhow::Error) -> Seq<Seq<char>>;

/// `anyhow::Error::chain`, each error of the cause chain rendered with
/// `to_string`. The contract claims that the result is the chain named
/// `chain_of`, and that it is never empty: the chain starts with the error
/// itself.
#[verifier::external_body]
fn error_chain_messages(err: &anyhow::Error) -> (r: Vec<String>)
    ensures
        r@.map_values(|m: String| m@) == chain_of(*err),
        r.len() >= 1,
{
    err.chain().map(|e| e.to_string()).collect()
}

/// `anyhow::Error`'s `Display` text. Without the alternate flag it writes the
/// outermost error alone, which is the first error of the chain, so the
/// contract claims the first text of `chain_of`.
#[verifier::external_body]
fn error_display(err: &anyhow::Error) -> (r: String)
    ensures
        chain_of(*err).len() > 0 ==> r@ == chain_of(*err)[0],
{
    err.to_string()
}

/// The messages joined with `sep` between consecutive ones.
pub open spec fn join_seq(parts: Seq<Seq<char>>, sep: Seq<char>) -> Seq<char>
    decreases parts.len(),
{
    if parts.len() == 0 {
        Seq::empty()
    } else if parts.len() == 1 {
        parts[0]
    } else {
        join_seq(parts.drop_last(), sep) + sep + parts.last()
    }
}

pub open spec fn views_of(v: Seq<String>) -> Seq<Seq<char>> {
    v.map_values(|s: String| s@)
}

/// `parts.join(sep)`.
pub fn join_strings(parts: &Vec<String>, sep: &str) -> (out: Vec<char>)
    ensures
        out@ == join_seq(views_of(parts@), sep@),
{
    let sepv = chars_of(sep);
    let mut out: Vec<char> = Vec::new();
    for i in 0..parts.len()
        invariant
            sepv@ == sep@,
            out@ == join_seq(views_of(parts@.take(i as int)), sep@),
    {
        let p = chars_of(parts[i].as_str());
        let ghost before = out@;
        if i > 0 {
            extend_chars(&mut out, &sepv);
        }
        extend_chars(&mut out, &p);
        assert(views_of(parts@.take(i + 1)).drop_last() =~= views_of(parts@.take(i as int)));
        assert(views_of(parts@.take(i + 1)).last() == parts@[i as int]@);
        if i == 0 {
            assert(out@ =~= before + p@);
        }
    }
    assert(parts@.take(parts.len() as int) == parts@);
    out
}

/// A join of at least one part is empty only when it is that single empty part.
proof fn lemma_join_empty(parts: Seq<Seq<char>>, sep: Seq<char>)
    requires
        parts.len() >= 1,
        sep.len() > 0,
        join_seq(parts, sep).len() == 0,
    ensures
        parts.len() == 1,
        parts[0] == join_seq(parts, sep),
{
    if parts.len() > 1 {
        assert(join_seq(parts, sep) == join_seq(parts.drop_last(), sep) + sep + parts.last());
    }
}

/// The text classified for an error chain: the messages joined by `" | "`, or the
/// display text when the join is empty.
pub open spec fn chain_text_spec(messages: Seq<Seq<char>>, display: Seq<char>) -> Seq<char> {
    let joined = join_seq(messages, " | "@);
    if joined.len() == 0 {
        display
    } else {
        joined
    }
}

pub struct ErrorClassifier;

impl ErrorClassifier {
    /// Classify based on HTTP status code.
    pub fn classify_http(status: u16) -> (r: ErrorType)
        ensures
            r == classify_http_spec(status),
    {
        if status == 408 {
            ErrorType::NetworkTimeout
        } else if status == 429 {
            ErrorType::RateLimit
        } else if 500 <= status && status <= 599 {
            ErrorType::ServerError
        } else if 400 <= status && status <= 499 {
            ErrorType::ClientErrorInvalid
        } else {
            ErrorType::UnknownError
        }
    }

    /// Keyword classification of a message that is already lower-case.
    pub fn classify_lowered(lowered: &Vec<char>) -> (r: ErrorType)
        ensures
            r == classify_lowered_spec(lowered@),
    {
        if contains_str(lowered, "timeout") || contains_str(lowered, "timed out") {
            ErrorType::NetworkTimeout
        } else if contains_str(lowered, "econnrefused") || contains_str(
            lowered,
            "connection refused",
        ) {
            ErrorType::NetworkTimeout
        } else if contains_str(lowered, "rate limit") || contains_str(
            lowered,
            "too many requests",
        ) {
            ErrorType::RateLimit
        } else if contains_str(lowered, "parse") || contains_str(lowered, "json")
            || contains_str(lowered, "malformed") {
            ErrorType::ParseError
        } else if contains_str(lowered, "missing") || contains_str(lowered, "required")
            || contains_str(lowered, "invalid") {
            ErrorType::ValidationError
        } else {
            ErrorType::UnknownError
        }
    }

    /// Classify based on an error message string (keyword match on its lower-case form).
    pub fn classify_message(message: &str) -> (r: ErrorType)
        ensures
            r == classify_lowered_spec(lowercase(message@)),
    {
        let lowered = str_to_lowercase(message);
        let chars = chars_of(lowered.as_str());
        Self::classify_lowered(&chars)
    }

    /// Classification of an error chain given its messages and its display text.
    pub fn classify_chain(messages: &Vec<String>, display: &str) -> (r: ErrorType)
        ensures
            r == classify_lowered_spec(lowercase(chain_text_spec(views_of(messages@), display@))),
    {
        let joined = join_strings(messages, " | ");
        let text = if joined.len() == 0 {
            chars_of(display)
        } else {
            joined
        };
        let s = string_of(&text);
        Self::classify_message(s.as_str())
    }

    /// Classify an `anyhow` error by the messages of its whole cause chain,
    /// outermost first, joined with `" | "`.
    pub fn classify_anyhow(err: &anyhow::Error) -> (r: ErrorType)
        ensures
            r == classify_lowered_spec(lowercase(join_seq(chain_of(*err), " | "@))),
    {
        let messages = error_chain_messages(err);
        let display = error_display(err);
        let r = Self::classify_chain(&messages, display.as_str());
        proof {
            let c = chain_of(*err);
            reveal_strlit(" | ");
            assert(views_of(messages@) == c);
            assert(c.len() >= 1);
            if join_seq(c, " | "@).len() == 0 {
                lemma_join_empty(c, " | "@);
            }
            assert(chain_text_spec(c, display@) == join_seq(c, " | "@));
        }
        r
    }

    pub fn is_retryable(error_type: ErrorType) -> (r: bool)
        ensures
            r == is_retryable_spec(error_type),
    {
        match error_type {
            ErrorType::NetworkTimeout | ErrorType::RateLimit | ErrorType::ServerError
            | ErrorType::UnknownError | ErrorType::ImageUploadError
            | ErrorType::ArticlePostError => true,
            _ => false,
        }
    }

    pub fn max_retries(error_type: ErrorType) -> (r: u32)
        ensures
            r == (if is_retryable_spec(error_type) {
                3u32
            } else {
                0u32
            }),
    {
        if Self::is_retryable(error_type) {
            3
        } else {
            0
        }
    }
}

/// A classified failure with its context, as recorded in failure reports.
#[derive(Debug, Clone)]
pub struct ErrorContext {
    pub error_type: ErrorType,
    pub http_status: i32,
    pub message: String,
    pub context: String,
    pub retry_count: i32,
    pub timestamp: String,
}

/// The current UTC time as RFC 3339 with whole seconds and a `Z` suffix
/// (`chrono::Utc::now().to_rfc3339_opts(SecondsFormat::Secs, true)`).
/// It depends on the clock, so nothing is stated of it.
#[verifier::external_body]
pub fn utc_now_rfc3339_secs() -> (r: String) {
    chrono::Utc::now().to_rfc3339_opts(chrono::SecondsFormat::Secs, true)
}

impl ErrorContext {
    pub fn new(error_type: ErrorType, message: &str) -> (r: Self)
        ensures
            r.error_type == error_type,
            r.http_status == 0,
            r.message@ == message@,
            r.context@ == Seq::<char>::empty(),
            r.retry_count == 0,
    {
        ErrorContext {
            error_type,
            http_status: 0,
            message: message.to_owned(),
            context: String::new(),
            retry_count: 0,
            timestamp: utc_now_rfc3339_secs(),
        }
    }

    pub fn with_status(self, status: i32) -> (r: Self)
        ensures
            r == (ErrorContext { http_status: status, ..self }),
    {
        let mut s = self;
        s.http_status = status;
        s
    }

    /// The JSON object written into failure reports, members in key order:
    /// `context`, `errorType`, `httpStatus`, `message`, `retryCount`, `timestamp`.
    pub fn to_json_text(&self) -> (r: String)
        ensures
            r@ == json_object(
                seq![
                    json_member("context"@, json_string(self.context@)),
                    json_member("errorType"@, json_string(error_type_name(self.error_type))),
                    json_member("httpStatus"@, json_int(self.http_status as int)),
                    json_member("message"@, json_string(self.message@)),
                    json_member("retryCount"@, json_int(self.retry_count as int)),
                    json_member("timestamp"@, json_string(self.timestamp@)),
                ],
            ),
    {
        let mut m: Vec<Vec<char>> = Vec::new();
        m.push(member("context", quote(self.context.as_str())));
        m.push(member("errorType", quote(self.error_type.name())));
        m.push(member("httpStatus", int_text(self.http_status as i64)));
        m.push(member("message", quote(self.message.as_str())));
        m.push(member("retryCount", int_text(self.retry_count as i64)));
        m.push(member("timestamp", quote(self.timestamp.as_str())));
        assert(char_views(m@) =~= seq![
            json_member("context"@, json_string(self.context@)),
            json_member("errorType"@, json_string(error_type_name(self.error_type))),
            json_member("httpStatus"@, json_int(self.http_status as int)),
            json_member("message"@, json_string(self.message@)),
            json_member("retryCount"@, json_int(self.retry_count as int)),
            json_member("timestamp"@, json_string(self.timestamp@)),
        ]);
        string_of(&object(&m))
    }

    pub fn with_context(self, ctx: &str) -> (r: Self)
        ensures
            r.context@ == ctx@,
            r.error_type == self.error_type,
            r.http_status == self.http_status,
            r.message == self.message,
            r.retry_count == self.retry_count,
            r.timestamp == self.timestamp,
    {
        let mut s = self;
        s.context = ctx.to_owned();
        s
    }
}

// ------------------------------------------------------------------
// Retry policy
// ------------------------------------------------------------------

pub open spec fn pow3(k: nat) -> nat
    decreases k,
{
    if k == 0 {
        1
    } else {
        3 * pow3((k - 1) as nat)
    }
}

pub open spec fn pow2(k: nat) -> nat
    decreases k,
{
    if k == 0 {
        1
    } else {
        2 * pow2((k - 1) as nat)
    }
}

/// Adaptive backoff in milliseconds for a 1-based attempt number:
/// `1000 * 1.5^(attempt - 1)` rounded half away from zero (1000, 1500, 2250, ...).
/// For attempt 0 the exponent is -1, giving 667.
pub open spec fn backoff_spec(attempt: nat) -> nat {
    if attempt == 0 {
        667
    } else {
        let k = (attempt - 1) as nat;
        ((2000 * pow3(k) + pow2(k)) / (2 * pow2(k))) as nat
    }
}

proof fn lemma_pow_mono(i: nat, j: nat)
    requires
        i <= j,
    ensures
        pow3(i) <= pow3(j),
        1 <= pow2(i) <= pow2(j),
    decreases j,
{
    if i < j {
        lemma_pow_mono(i, (j - 1) as nat);
    } else if j > 0 {
        lemma_pow_mono((j - 1) as nat, (j - 1) as nat);
    }
}

proof fn lemma_pow_bounds(k: nat)
    requires
        k <= 29,
    ensures
        pow3(k) <= 68630377364883,
        1 <= pow2(k) <= 536870912,
{
    lemma_pow_mono(k, 29);
    reveal_with_fuel(pow3, 30);
    reveal_with_fuel(pow2, 30);
    assert(pow3(29) == 68630377364883);
    assert(pow2(29) == 536870912);
}

/// Backoff for a retry attempt: 1000 * 1.5^(attempt - 1) milliseconds, rounded to
/// the nearest integer and computed exactly in integers (attempts up to 30).
pub fn backoff_ms(attempt: u32) -> (r: u64)
    requires
        attempt <= 30,
    ensures
        r == backoff_spec(attempt as nat),
{
    if attempt == 0 {
        return 667;
    }
    let k = attempt - 1;
    let mut p3: u64 = 1;
    let mut p2: u64 = 1;
    let mut i: u32 = 0;
    while i < k
        invariant
            i <= k <= 29,
            p3 == pow3(i as nat),
            p2 == pow2(i as nat),
        decreases k - i,
    {
        proof {
            lemma_pow_bounds(i as nat);
        }
        p3 = p3 * 3;
        p2 = p2 * 2;
        i += 1;
    }
    proof {
        lemma_pow_bounds(k as nat);
    }
    (2000 * p3 + p2) / (2 * p2)
}

/// What a retrying caller does after an attempt failed with a classified error.
#[derive(Debug, Clone, Copy, PartialEq, Eq, Structural)]
pub enum RetryDecision {
    /// Stop and report the error.
    GiveUp,
    /// Sleep this many milliseconds, then make the next attempt.
    WaitMs(u64),
    /// Sleep the backoff of this attempt number (past 30), 1000 * 1.5^(attempt - 1)
    /// milliseconds as floating point computes it, then make the next attempt.
    WaitLongBackoff(u32),
}

pub open spec fn retry_decision_spec(attempt: u32, max_attempts: u32, t: ErrorType) -> RetryDecision {
    if !is_retryable_spec(t) || attempt >= max_attempts {
        RetryDecision::GiveUp
    } else if attempt <= 30 {
        RetryDecision::WaitMs(backoff_spec(attempt as nat) as u64)
    } else {
        RetryDecision::WaitLongBackoff(attempt)
    }
}

/// Decision of the retry helpers after attempt `attempt` (1-based) of
/// `max_attempts` failed: a non-retryable error stops at once, the last attempt
/// stops, any other attempt waits its backoff (computed here for attempts up to
/// 30, named by its attempt number beyond).
pub fn retry_decision(attempt: u32, max_attempts: u32, error_type: ErrorType) -> (r: RetryDecision)
    ensures
        r == retry_decision_spec(attempt, max_attempts, error_type),
{
    if !ErrorClassifier::is_retryable(error_type) || attempt >= max_attempts {
        RetryDecision::GiveUp
    } else if attempt <= 30 {
        RetryDecision::WaitMs(backoff_ms(attempt))
    } else {
        RetryDecision::WaitLongBackoff(attempt)
    }
}

} // verus!
