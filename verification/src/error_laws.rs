//! What failures and models are taken for, by the words in their names.

use vstd::prelude::*;

use crate::compaction::summary::{is_transient, MAX_RETRIES};
use crate::errors::{error_category, lowercase_category, ErrorCategory};
use crate::models::{compaction_threshold, context_window, lowercase_context_window};
use crate::text::{contains_text, unicode_lowercase};

verus! {

/// Words that say that requests come too fast.
pub open spec fn is_rate_word(word: Seq<char>) -> bool {
    word == "rate limit"@ || word == "too many requests"@ || word == "429"@
}

/// Words that say that something took too long.
pub open spec fn is_time_word(word: Seq<char>) -> bool {
    word == "timeout"@ || word == "timed out"@
}

/// Words that speak of credentials.
pub open spec fn is_key_word(word: Seq<char>) -> bool {
    word == "unauthorized"@ || word == "401"@ || word == "api key"@
}

/// Words that speak of a service or a connection.
pub open spec fn is_network_word(word: Seq<char>) -> bool {
    word == "network"@ || word == "connection"@ || word == "dns"@ || word == "unavailable"@ || word
        == "502"@ || word == "503"@ || word == "504"@
}

proof fn lemma_words()
    ensures
        is_rate_word("rate limit"@) && is_rate_word("too many requests"@) && is_rate_word("429"@),
        is_time_word("timeout"@) && is_time_word("timed out"@),
        is_key_word("unauthorized"@) && is_key_word("401"@) && is_key_word("api key"@),
        is_network_word("network"@) && is_network_word("connection"@) && is_network_word("dns"@),
        is_network_word("unavailable"@) && is_network_word("502"@) && is_network_word("503"@),
        is_network_word("504"@),
{
}

/// A failure is taken for what its words speak of, whatever else stands in the
/// message: haste before time, time before credentials, credentials before the
/// network.
pub proof fn words_tell_failures_apart(lower: Seq<char>, word: Seq<char>)
    requires
        contains_text(lower, word),
    ensures
        is_rate_word(word) ==> lowercase_category(lower) == ErrorCategory::RateLimit,
        is_time_word(word) && (forall|w: Seq<char>| is_rate_word(w) ==> !contains_text(lower, w))
            ==> lowercase_category(lower) == ErrorCategory::Timeout,
        is_key_word(word) && (forall|w: Seq<char>|
            is_rate_word(w) || is_time_word(w) ==> !contains_text(lower, w)) ==> lowercase_category(
            lower,
        ) == ErrorCategory::Authentication,
        is_network_word(word) && (forall|w: Seq<char>|
            is_rate_word(w) || is_time_word(w) || is_key_word(w) ==> !contains_text(lower, w))
            ==> lowercase_category(lower) == ErrorCategory::Network,
        word == "parse"@ && (forall|w: Seq<char>|
            is_rate_word(w) || is_time_word(w) || is_key_word(w) || is_network_word(w)
                ==> !contains_text(lower, w)) ==> lowercase_category(lower) == ErrorCategory::Parse,
        word == "invalid"@ && !contains_text(lower, "parse"@) && (forall|w: Seq<char>|
            is_rate_word(w) || is_time_word(w) || is_key_word(w) || is_network_word(w)
                ==> !contains_text(lower, w)) ==> lowercase_category(lower)
            == ErrorCategory::InvalidInput,
{
    lemma_words();
}

/// A failure whose words speak of none of these is internal.
pub proof fn other_failures_are_internal(lower: Seq<char>)
    requires
        forall|w: Seq<char>|
            is_rate_word(w) || is_time_word(w) || is_key_word(w) || is_network_word(w)
                ==> !contains_text(lower, w),
        !contains_text(lower, "parse"@),
        !contains_text(lower, "invalid"@),
    ensures
        lowercase_category(lower) == ErrorCategory::Internal,
{
    lemma_words();
}

/// Haste, lost time and the network may pass; nothing else is tried again, and
/// these three times at most.
pub proof fn passing_failures_are_tried_again(message: Seq<char>, word: Seq<char>)
    ensures
        is_rate_word(word) && contains_text(unicode_lowercase(message), word) ==> is_transient(
            error_category(message),
        ),
        is_time_word(word) && contains_text(unicode_lowercase(message), word) ==> is_transient(
            error_category(message),
        ),
        (forall|w: Seq<char>|
            is_rate_word(w) || is_time_word(w) || is_network_word(w) ==> !contains_text(
                unicode_lowercase(message),
                w,
            )) ==> !is_transient(error_category(message)),
        is_transient(ErrorCategory::Network),
        !is_transient(ErrorCategory::Authentication),
        !is_transient(ErrorCategory::Parse),
        !is_transient(ErrorCategory::InvalidInput),
        !is_transient(ErrorCategory::Internal),
        MAX_RETRIES == 3,
{
    lemma_words();
}

// ---------------------------------------------------------------------------
// Models
// ---------------------------------------------------------------------------

/// Windows are known of DeepSeek's models only: a million tokens for the fourth
/// version, unless the name says otherwise, and a hundred and twenty-eight
/// thousand for the others.
pub proof fn windows_are_known_by_name(lower: Seq<char>)
    ensures
        !contains_text(lower, "deepseek"@) ==> lowercase_context_window(lower) is None,
        contains_text(lower, "deepseek"@) && contains_text(lower, "v4"@) && !contains_text(
            lower,
            "128k"@,
        ) ==> lowercase_context_window(lower) == Some(1_000_000u32),
        contains_text(lower, "deepseek"@) && contains_text(lower, "128k"@)
            ==> lowercase_context_window(lower) == Some(128_000u32),
        contains_text(lower, "deepseek"@) && !contains_text(lower, "v4"@)
            ==> lowercase_context_window(lower) == Some(128_000u32),
{
}

/// Conversations are compacted at four fifths of the window, or at fifty
/// thousand tokens where it is not known.
pub proof fn thresholds_follow_the_window(model: Seq<char>, window: u32)
    ensures
        context_window(model) == Some(window) && window % 5 == 0 ==> 5 * compaction_threshold(model)
            == 4 * window,
        context_window(model) is None ==> compaction_threshold(model) == 50_000,
        context_window(model) matches Some(w) ==> compaction_threshold(model) < w,
{
}

} // verus!
