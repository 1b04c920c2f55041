//! Short messages to the user that pass with time. Times are in milliseconds.

use vstd::prelude::*;

use crate::text::{ascii_lowercase, chars_contain, contains_text, to_ascii_lowercase, to_chars};
use crate::tui::paste_burst::elapsed;

verus! {

/// How many messages wait at most.
pub const MAX_STATUS_TOASTS: usize = 24;

/// How important a message is.
#[derive(Debug, Clone, Copy, PartialEq, Eq, Structural)]
pub enum StatusToastLevel {
    Info,
    Success,
    Warning,
    Error,
}

/// A message that passes with time.
#[derive(Debug)]
pub struct StatusToast {
    pub text: String,
    pub level: StatusToastLevel,
    pub created_at: u64,
    pub ttl_ms: Option<u64>,
}

/// The mathematical form of a [`StatusToast`].
#[verifier::ext_equal]
pub struct ToastModel {
    pub text: Seq<char>,
    pub level: StatusToastLevel,
    pub created_at: u64,
    pub ttl_ms: Option<u64>,
}

impl View for StatusToast {
    type V = ToastModel;

    open spec fn view(&self) -> ToastModel {
        ToastModel {
            text: self.text@,
            level: self.level,
            created_at: self.created_at,
            ttl_ms: self.ttl_ms,
        }
    }
}

/// The models of a list of messages.
pub open spec fn toast_models(toasts: Seq<StatusToast>) -> Seq<ToastModel> {
    toasts.map_values(|t: StatusToast| t@)
}

/// The model of an optional message.
pub open spec fn toast_model(toast: Option<StatusToast>) -> Option<ToastModel> {
    match toast {
        Some(t) => Some(t@),
        None => None,
    }
}

impl ToastModel {
    /// The message has had its time. One without a time stays.
    pub open spec fn has_expired(self, now: u64) -> bool {
        self.ttl_ms matches Some(ttl) && elapsed(now, self.created_at) >= ttl
    }
}

impl Clone for StatusToast {
    fn clone(&self) -> (res: Self)
        ensures
            res == *self,
    {
        StatusToast {
            text: self.text.clone(),
            level: self.level,
            created_at: self.created_at,
            ttl_ms: self.ttl_ms,
        }
    }
}

impl StatusToast {
    /// A message that is shown from now on.
    pub fn new(text: String, level: StatusToastLevel, ttl_ms: Option<u64>, now: u64) -> (res: Self)
        ensures
            res == (StatusToast { text, level, created_at: now, ttl_ms }),
    {
        StatusToast { text, level, created_at: now, ttl_ms }
    }

    /// Whether the message has had its time.
    pub fn is_expired(&self, now: u64) -> (res: bool)
        ensures
            res == self@.has_expired(now),
    {
        match self.ttl_ms {
            Some(ttl) => now.saturating_sub(self.created_at) >= ttl,
            None => false,
        }
    }
}

/// How a message is shown: its level, its time, and whether it sticks.
#[derive(Debug, Clone, Copy, PartialEq, Eq, Structural)]
pub struct StatusClass {
    pub level: StatusToastLevel,
    pub ttl_ms: Option<u64>,
    pub sticky: bool,
}

/// A lowercase message asks for lasting attention.
pub open spec fn reads_lasting(lower: Seq<char>) -> bool {
    contains_text(lower, "offline mode"@) || contains_text(lower, "context critical"@)
}

/// A lowercase message reports a failure.
pub open spec fn reads_failed(lower: Seq<char>) -> bool {
    ||| contains_text(lower, "error"@)
    ||| contains_text(lower, "failed"@)
    ||| contains_text(lower, "denied"@)
    ||| contains_text(lower, "timeout"@)
    ||| contains_text(lower, "aborted"@)
    ||| contains_text(lower, "critical"@)
}

/// A lowercase message reports a success.
pub open spec fn reads_succeeded(lower: Seq<char>) -> bool {
    ||| contains_text(lower, "saved"@)
    ||| contains_text(lower, "loaded"@)
    ||| contains_text(lower, "queued"@)
    ||| contains_text(lower, "found"@)
    ||| contains_text(lower, "enabled"@)
    ||| contains_text(lower, "completed"@)
}

/// How a message is shown, by the words in it.
pub open spec fn status_class(text: Seq<char>) -> StatusClass {
    let lower = ascii_lowercase(text);
    if reads_lasting(lower) {
        StatusClass { level: StatusToastLevel::Warning, ttl_ms: None, sticky: true }
    } else if reads_failed(lower) {
        StatusClass { level: StatusToastLevel::Error, ttl_ms: Some(15_000), sticky: true }
    } else if reads_succeeded(lower) {
        StatusClass { level: StatusToastLevel::Success, ttl_ms: Some(5_000), sticky: false }
    } else if contains_text(lower, "cancelled"@) || contains_text(lower, "warning"@) {
        StatusClass { level: StatusToastLevel::Warning, ttl_ms: Some(5_000), sticky: false }
    } else {
        StatusClass { level: StatusToastLevel::Info, ttl_ms: Some(4_000), sticky: false }
    }
}

fn has(lower: &Vec<char>, word: &str) -> (res: bool)
    ensures
        res == contains_text(lower@, word@),
{
    chars_contain(lower, &to_chars(word))
}

/// How a message is shown, by the words in it.
pub fn classify_status_text(text: &str) -> (res: StatusClass)
    ensures
        res == status_class(text@),
{
    let lower = to_chars(to_ascii_lowercase(text).as_str());
    if has(&lower, "offline mode") || has(&lower, "context critical") {
        return StatusClass { level: StatusToastLevel::Warning, ttl_ms: None, sticky: true };
    }
    if has(&lower, "error") || has(&lower, "failed") || has(&lower, "denied") || has(
        &lower,
        "timeout",
    ) || has(&lower, "aborted") || has(&lower, "critical") {
        return StatusClass { level: StatusToastLevel::Error, ttl_ms: Some(15_000), sticky: true };
    }
    if has(&lower, "saved") || has(&lower, "loaded") || has(&lower, "queued") || has(
        &lower,
        "found",
    ) || has(&lower, "enabled") || has(&lower, "completed") {
        return StatusClass { level: StatusToastLevel::Success, ttl_ms: Some(5_000), sticky: false };
    }
    if has(&lower, "cancelled") || has(&lower, "warning") {
        return StatusClass { level: StatusToastLevel::Warning, ttl_ms: Some(5_000), sticky: false };
    }
    StatusClass { level: StatusToastLevel::Info, ttl_ms: Some(4_000), sticky: false }
}

} // verus!
