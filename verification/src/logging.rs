//! Severity levels of the structured migration log.
use vstd::prelude::*;

verus! {

#[derive(Debug, Clone, Copy, PartialEq, Eq, Structural)]
pub enum LogLevel {
    Debug,
    Info,
    Warn,
    Error,
    Fatal,
}

/// Position of a level in the order Debug < Info < Warn < Error < Fatal.
pub open spec fn level_rank(l: LogLevel) -> int {
    match l {
        LogLevel::Debug => 0,
        LogLevel::Info => 1,
        LogLevel::Warn => 2,
        LogLevel::Error => 3,
        LogLevel::Fatal => 4,
    }
}

pub open spec fn level_name(l: LogLevel) -> Seq<char> {
    match l {
        LogLevel::Debug => "DEBUG"@,
        LogLevel::Info => "INFO"@,
        LogLevel::Warn => "WARN"@,
        LogLevel::Error => "ERROR"@,
        LogLevel::Fatal => "FATAL"@,
    }
}

impl LogLevel {
    pub fn as_str(self) -> (r: &'static str)
        ensures
            r@ == level_name(self),
    {
        match self {
            LogLevel::Debug => "DEBUG",
            LogLevel::Info => "INFO",
            LogLevel::Warn => "WARN",
            LogLevel::Error => "ERROR",
            LogLevel::Fatal => "FATAL",
        }
    }

    pub fn rank(self) -> (r: u8)
        ensures
            r == level_rank(self),
    {
        match self {
            LogLevel::Debug => 0,
            LogLevel::Info => 1,
            LogLevel::Warn => 2,
            LogLevel::Error => 3,
            LogLevel::Fatal => 4,
        }
    }

    /// Whether an entry of this level is kept by a logger whose minimum level is
    /// `min` (entries below the minimum are dropped).
    pub fn passes(self, min: LogLevel) -> (r: bool)
        ensures
            r == (level_rank(self) >= level_rank(min)),
    {
        self.rank() >= min.rank()
    }
}

/// Retry state attached to a log entry of a failed attempt.
#[derive(Debug, Clone, Default)]
pub struct RetryContext {
    pub attempt_number: i32,
    pub max_attempts: i32,
    pub next_retry_in_ms: i32,
    pub previous_error_type: String,
}

/// Details attached to a log entry of a failure.
#[derive(Debug, Clone, Default)]
pub struct ErrorDiagnostics {
    pub response_body: String,
    pub failed_field_name: String,
    pub validation_error: String,
    pub suggestion_or_note: String,
}

} // verus!
