//! What kind of failure an error message reports.

use vstd::prelude::*;

use crate::text::{chars_contain, contains_text, to_chars, to_lowercase, unicode_lowercase};

verus! {

/// The kinds of failure that are told apart.
#[derive(Debug, Clone, Copy, PartialEq, Eq, Structural)]
pub enum ErrorCategory {
    RateLimit,
    Timeout,
    Authentication,
    Network,
    Parse,
    InvalidInput,
    Internal,
}

/// A lowercase message reports that requests come too fast.
pub open spec fn reads_rate_limited(lower: Seq<char>) -> bool {
    ||| contains_text(lower, "rate limit"@)
    ||| contains_text(lower, "too many requests"@)
    ||| contains_text(lower, "429"@)
}

/// A lowercase message reports that something took too long.
pub open spec fn reads_timed_out(lower: Seq<char>) -> bool {
    ||| contains_text(lower, "timeout"@)
    ||| contains_text(lower, "timed out"@)
}

/// A lowercase message reports missing or wrong credentials.
pub open spec fn reads_unauthenticated(lower: Seq<char>) -> bool {
    ||| contains_text(lower, "unauthorized"@)
    ||| contains_text(lower, "401"@)
    ||| contains_text(lower, "api key"@)
}

/// A lowercase message reports a service or a connection that failed.
pub open spec fn reads_network(lower: Seq<char>) -> bool {
    ||| contains_text(lower, "network"@)
    ||| contains_text(lower, "connection"@)
    ||| contains_text(lower, "dns"@)
    ||| contains_text(lower, "unavailable"@)
    ||| contains_text(lower, "502"@)
    ||| contains_text(lower, "503"@)
    ||| contains_text(lower, "504"@)
}

/// The kind of failure a lowercase message reports: the first of these that its
/// words speak of.
pub open spec fn lowercase_category(lower: Seq<char>) -> ErrorCategory {
    if reads_rate_limited(lower) {
        ErrorCategory::RateLimit
    } else if reads_timed_out(lower) {
        ErrorCategory::Timeout
    } else if reads_unauthenticated(lower) {
        ErrorCategory::Authentication
    } else if reads_network(lower) {
        ErrorCategory::Network
    } else if contains_text(lower, "parse"@) {
        ErrorCategory::Parse
    } else if contains_text(lower, "invalid"@) {
        ErrorCategory::InvalidInput
    } else {
        ErrorCategory::Internal
    }
}

/// The kind of failure a message reports, in upper or lower case.
pub open spec fn error_category(message: Seq<char>) -> ErrorCategory {
    lowercase_category(unicode_lowercase(message))
}

fn has(lower: &Vec<char>, marker: &str) -> (res: bool)
    ensures
        res == contains_text(lower@, marker@),
{
    chars_contain(lower, &to_chars(marker))
}

/// The kind of failure that a message reports.
pub fn classify_error_message(message: &str) -> (res: ErrorCategory)
    ensures
        res == error_category(message@),
{
    classify_lowercase_message(to_lowercase(message).as_str())
}

/// The kind of failure that a lowercase message reports.
pub fn classify_lowercase_message(message: &str) -> (res: ErrorCategory)
    ensures
        res == lowercase_category(message@),
{
    let lower = to_chars(message);
    if has(&lower, "rate limit") || has(&lower, "too many requests") || has(&lower, "429") {
        ErrorCategory::RateLimit
    } else if has(&lower, "timeout") || has(&lower, "timed out") {
        ErrorCategory::Timeout
    } else if has(&lower, "unauthorized") || has(&lower, "401") || has(&lower, "api key") {
        ErrorCategory::Authentication
    } else if has(&lower, "network") || has(&lower, "connection") || has(&lower, "dns") || has(
        &lower,
        "unavailable",
    ) || has(&lower, "502") || has(&lower, "503") || has(&lower, "504") {
        ErrorCategory::Network
    } else if has(&lower, "parse") {
        ErrorCategory::Parse
    } else if has(&lower, "invalid") {
        ErrorCategory::InvalidInput
    } else {
        ErrorCategory::Internal
    }
}

} // verus!
