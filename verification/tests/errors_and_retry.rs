use migration_system::error::{backoff_ms, retry_decision, ErrorClassifier, ErrorContext, ErrorType, RetryDecision};
use migration_system::logging::LogLevel;
use migration_system::orchestrator::retry_context;

#[test]
fn http_classification() {
    assert_eq!(ErrorClassifier::classify_http(408), ErrorType::NetworkTimeout);
    assert_eq!(ErrorClassifier::classify_http(429), ErrorType::RateLimit);
    assert_eq!(ErrorClassifier::classify_http(503), ErrorType::ServerError);
    assert_eq!(ErrorClassifier::classify_http(404), ErrorType::ClientErrorInvalid);
    assert_eq!(ErrorClassifier::classify_http(302), ErrorType::UnknownError);
}

#[test]
fn message_classification() {
    assert_eq!(ErrorClassifier::classify_message("Request TIMED OUT"), ErrorType::NetworkTimeout);
    assert_eq!(ErrorClassifier::classify_message("ECONNREFUSED"), ErrorType::NetworkTimeout);
    assert_eq!(ErrorClassifier::classify_message("Too Many Requests"), ErrorType::RateLimit);
    assert_eq!(ErrorClassifier::classify_message("bad JSON"), ErrorType::ParseError);
    assert_eq!(ErrorClassifier::classify_message("field required"), ErrorType::ValidationError);
    assert_eq!(ErrorClassifier::classify_message("boom"), ErrorType::UnknownError);
}

#[test]
fn anyhow_chain_classification() {
    let e = anyhow::Error::msg("connection refused").context("posting article");
    assert_eq!(ErrorClassifier::classify_anyhow(&e), ErrorType::NetworkTimeout);
    let e = anyhow::Error::msg("connection refused").context("HTTP request to http://x");
    assert_eq!(ErrorClassifier::classify_anyhow(&e), ErrorType::NetworkTimeout);
    // The outermost message counts too, not only the root cause.
    let e = anyhow::Error::msg("boom").context("parse failed");
    assert_eq!(ErrorClassifier::classify_anyhow(&e), ErrorType::ParseError);
    assert_eq!(ErrorClassifier::classify_anyhow(&anyhow::Error::msg("boom")), ErrorType::UnknownError);
}

#[test]
fn retryability() {
    assert!(ErrorClassifier::is_retryable(ErrorType::ServerError));
    assert!(!ErrorClassifier::is_retryable(ErrorType::ClientErrorInvalid));
    assert_eq!(ErrorClassifier::max_retries(ErrorType::RateLimit), 3);
    assert_eq!(ErrorClassifier::max_retries(ErrorType::ParseError), 0);
}

#[test]
fn backoff_values() {
    assert_eq!(backoff_ms(0), 667);
    assert_eq!(backoff_ms(1), 1000);
    assert_eq!(backoff_ms(2), 1500);
    assert_eq!(backoff_ms(3), 2250);
    assert_eq!(backoff_ms(4), 3375);
    assert_eq!(backoff_ms(5), 5063);
    assert_eq!(backoff_ms(10), (1000.0 * 1.5f64.powi(9)).round() as u64);
}

#[test]
fn retry_decisions() {
    assert_eq!(retry_decision(1, 3, ErrorType::ServerError), RetryDecision::WaitMs(1000));
    assert_eq!(retry_decision(2, 3, ErrorType::ServerError), RetryDecision::WaitMs(1500));
    assert_eq!(retry_decision(3, 3, ErrorType::ServerError), RetryDecision::GiveUp);
    assert_eq!(retry_decision(1, 3, ErrorType::ValidationError), RetryDecision::GiveUp);
    // Any number of attempts gets a decision.
    assert_eq!(retry_decision(30, 100, ErrorType::RateLimit), RetryDecision::WaitMs(backoff_ms(30)));
    assert_eq!(retry_decision(31, 100, ErrorType::RateLimit), RetryDecision::WaitLongBackoff(31));
    assert_eq!(retry_decision(100, 100, ErrorType::RateLimit), RetryDecision::GiveUp);
    assert_eq!(retry_decision(40, 100, ErrorType::ParseError), RetryDecision::GiveUp);
}

#[test]
fn retry_context_for_logs() {
    let c = retry_context(1, ErrorType::ServerError);
    assert_eq!(c.attempt_number, 1);
    assert_eq!(c.max_attempts, 3);
    assert_eq!(c.next_retry_in_ms, 1000);
    assert_eq!(c.previous_error_type, "SERVER_ERROR");
    assert_eq!(retry_context(3, ErrorType::ServerError).next_retry_in_ms, 0);
    assert_eq!(retry_context(1, ErrorType::ParseError).next_retry_in_ms, 0);
}

#[test]
fn error_context_builders() {
    let c = ErrorContext::new(ErrorType::ParseError, "bad").with_status(422).with_context("payload");
    assert_eq!(c.error_type, ErrorType::ParseError);
    assert_eq!(c.http_status, 422);
    assert_eq!(c.message, "bad");
    assert_eq!(c.context, "payload");
    assert_eq!(c.retry_count, 0);
    assert!(c.timestamp.ends_with('Z'));
    assert_eq!(ErrorType::CommentPostError.name(), "COMMENT_POST_ERROR");
}

#[test]
fn log_levels() {
    assert_eq!(LogLevel::Warn.as_str(), "WARN");
    assert!(LogLevel::Error.passes(LogLevel::Warn));
    assert!(!LogLevel::Debug.passes(LogLevel::Info));
}
