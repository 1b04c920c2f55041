//! When a conversation is compacted, and how much of it a summary may read.

use vstd::prelude::*;

use crate::compaction::estimation::{
    estimate_tokens_for_message, lemma_blocks_tokens_nonnegative, message_tokens, saturated,
};
use crate::compaction::pairing::indices;
use crate::compaction::planning::{
    path_list, pin_list, plan_compaction, plan_pins, unpinned,
};
use crate::compaction::pruning::SUMMARY_TOOL_RESULT_SNIPPET_CHARS;
use crate::models::{
    context_window, context_window_for_model, conversation, Message, MessageModel,
    DEFAULT_TEXT_MODEL,
};
use crate::paths::Workspace;

verus! {

/// Hard floor for automatic compaction, in tokens. Compaction rewrites the
/// stable prefix of a conversation and loses the prompt cache, which below this
/// size costs more than it frees.
pub const MINIMUM_AUTO_COMPACTION_TOKENS: usize = 500_000;

/// How many of the latest messages a compaction keeps.
pub const KEEP_RECENT_MESSAGES: usize = 4;

/// The fewest messages worth a summary.
pub const MIN_SUMMARIZE_MESSAGES: usize = 6;

/// Characters of a text that a summary reads.
pub const SUMMARY_TEXT_SNIPPET_CHARS: usize = 800;

/// Characters of a transcript that a summary reads.
pub const SUMMARY_INPUT_MAX_CHARS: usize = 24_000;

/// Characters kept from the head of a transcript that is too long.
pub const SUMMARY_INPUT_HEAD_CHARS: usize = 14_000;

/// Characters kept from the tail of a transcript that is too long.
pub const SUMMARY_INPUT_TAIL_CHARS: usize = 6_000;

/// Characters of a text that a large-context summary reads.
pub const LARGE_CONTEXT_SUMMARY_TEXT_SNIPPET_CHARS: usize = 2_000;

/// Characters of a tool result that a large-context summary reads.
pub const LARGE_CONTEXT_SUMMARY_TOOL_RESULT_SNIPPET_CHARS: usize = 4_000;

/// Characters of a transcript that a large-context summary reads.
pub const LARGE_CONTEXT_SUMMARY_INPUT_MAX_CHARS: usize = 120_000;

/// Characters kept from the head of a long large-context transcript.
pub const LARGE_CONTEXT_SUMMARY_INPUT_HEAD_CHARS: usize = 72_000;

/// Characters kept from the tail of a long large-context transcript.
pub const LARGE_CONTEXT_SUMMARY_INPUT_TAIL_CHARS: usize = 36_000;

/// Tokens that a large-context summary may take.
pub const LARGE_CONTEXT_SUMMARY_MAX_TOKENS: u32 = 2_048;

/// The smallest context window that counts as large, in tokens.
pub const LARGE_CONTEXT_WINDOW_TOKENS: u32 = 500_000;

/// Share of the context window that a replayed conversation may fill, in
/// percent.
pub const CACHE_ALIGNED_SUMMARY_CONTEXT_BUDGET_PERCENT: usize = 85;

// ---------------------------------------------------------------------------
// Configuration
// ---------------------------------------------------------------------------

/// How conversations are compacted.
#[derive(Debug, PartialEq)]
pub struct CompactionConfig {
    pub enabled: bool,
    pub token_threshold: usize,
    pub model: String,
    pub cache_summary: bool,
    /// Conversations below this many tokens are never compacted automatically;
    /// `0` removes the floor.
    pub auto_floor_tokens: usize,
}

impl Clone for CompactionConfig {
    fn clone(&self) -> (res: Self)
        ensures
            res == *self,
    {
        CompactionConfig {
            enabled: self.enabled,
            token_threshold: self.token_threshold,
            model: self.model.clone(),
            cache_summary: self.cache_summary,
            auto_floor_tokens: self.auto_floor_tokens,
        }
    }
}

impl Default for CompactionConfig {
    fn default() -> (res: Self)
        ensures
            res.enabled,
            res.token_threshold == 800_000,
            res.model@ == DEFAULT_TEXT_MODEL@,
            res.cache_summary,
            res.auto_floor_tokens == MINIMUM_AUTO_COMPACTION_TOKENS,
    {
        CompactionConfig {
            enabled: true,
            token_threshold: 800_000,
            model: DEFAULT_TEXT_MODEL.to_owned(),
            cache_summary: true,
            auto_floor_tokens: MINIMUM_AUTO_COMPACTION_TOKENS,
        }
    }
}

/// How much of a conversation a summary reads and writes.
#[derive(Debug, Clone, Copy, PartialEq, Eq, Structural)]
pub struct SummaryInputLimits {
    pub text_snippet_chars: usize,
    pub tool_result_snippet_chars: usize,
    pub input_max_chars: usize,
    pub input_head_chars: usize,
    pub input_tail_chars: usize,
    pub max_tokens: u32,
    pub word_limit: usize,
}

/// A model is known to have a large context window.
pub open spec fn is_large_context(model: Seq<char>) -> bool {
    context_window(model) matches Some(window) && window >= LARGE_CONTEXT_WINDOW_TOKENS
}

/// The summary limits of a model.
pub open spec fn summary_limits(model: Seq<char>) -> SummaryInputLimits {
    if is_large_context(model) {
        SummaryInputLimits {
            text_snippet_chars: LARGE_CONTEXT_SUMMARY_TEXT_SNIPPET_CHARS,
            tool_result_snippet_chars: LARGE_CONTEXT_SUMMARY_TOOL_RESULT_SNIPPET_CHARS,
            input_max_chars: LARGE_CONTEXT_SUMMARY_INPUT_MAX_CHARS,
            input_head_chars: LARGE_CONTEXT_SUMMARY_INPUT_HEAD_CHARS,
            input_tail_chars: LARGE_CONTEXT_SUMMARY_INPUT_TAIL_CHARS,
            max_tokens: LARGE_CONTEXT_SUMMARY_MAX_TOKENS,
            word_limit: 900,
        }
    } else {
        SummaryInputLimits {
            text_snippet_chars: SUMMARY_TEXT_SNIPPET_CHARS,
            tool_result_snippet_chars: SUMMARY_TOOL_RESULT_SNIPPET_CHARS,
            input_max_chars: SUMMARY_INPUT_MAX_CHARS,
            input_head_chars: SUMMARY_INPUT_HEAD_CHARS,
            input_tail_chars: SUMMARY_INPUT_TAIL_CHARS,
            max_tokens: 1_024,
            word_limit: 500,
        }
    }
}

/// The summary limits of a model.
pub fn summary_input_limits_for_model(model: &str) -> (res: SummaryInputLimits)
    ensures
        res == summary_limits(model@),
{
    let large = match context_window_for_model(model) {
        Some(window) => window >= LARGE_CONTEXT_WINDOW_TOKENS,
        None => false,
    };
    if large {
        SummaryInputLimits {
            text_snippet_chars: LARGE_CONTEXT_SUMMARY_TEXT_SNIPPET_CHARS,
            tool_result_snippet_chars: LARGE_CONTEXT_SUMMARY_TOOL_RESULT_SNIPPET_CHARS,
            input_max_chars: LARGE_CONTEXT_SUMMARY_INPUT_MAX_CHARS,
            input_head_chars: LARGE_CONTEXT_SUMMARY_INPUT_HEAD_CHARS,
            input_tail_chars: LARGE_CONTEXT_SUMMARY_INPUT_TAIL_CHARS,
            max_tokens: LARGE_CONTEXT_SUMMARY_MAX_TOKENS,
            word_limit: 900,
        }
    } else {
        SummaryInputLimits {
            text_snippet_chars: SUMMARY_TEXT_SNIPPET_CHARS,
            tool_result_snippet_chars: SUMMARY_TOOL_RESULT_SNIPPET_CHARS,
            input_max_chars: SUMMARY_INPUT_MAX_CHARS,
            input_head_chars: SUMMARY_INPUT_HEAD_CHARS,
            input_tail_chars: SUMMARY_INPUT_TAIL_CHARS,
            max_tokens: 1_024,
            word_limit: 500,
        }
    }
}

// ---------------------------------------------------------------------------
// The trigger
// ---------------------------------------------------------------------------

/// Estimated tokens of those of the first `n` messages that are in `set`,
/// without reasoning.
pub open spec fn tokens_in(messages: Seq<MessageModel>, set: Set<int>, n: int) -> int
    decreases n,
{
    if n <= 0 {
        0
    } else if set.contains(n - 1) {
        tokens_in(messages, set, n - 1) + message_tokens(messages[n - 1], false)
    } else {
        tokens_in(messages, set, n - 1)
    }
}

proof fn lemma_tokens_nonnegative(messages: Seq<MessageModel>, set: Set<int>, n: int)
    ensures
        tokens_in(messages, set, n) >= 0,
    decreases n,
{
    if n > 0 {
        lemma_tokens_nonnegative(messages, set, n - 1);
        lemma_blocks_tokens_nonnegative(messages[n - 1].content, false);
    }
}

/// A conversation has reached the floor below which nothing is compacted.
pub open spec fn reaches_floor(messages: Seq<MessageModel>, config: CompactionConfig) -> bool {
    config.auto_floor_tokens > 0 ==> saturated(
        tokens_in(messages, Set::full(), messages.len() as int),
    ) >= config.auto_floor_tokens
}

/// What is left of the token threshold beside the kept messages.
pub open spec fn remaining_threshold(
    messages: Seq<MessageModel>,
    config: CompactionConfig,
    kept: Set<int>,
) -> int {
    let used = saturated(tokens_in(messages, kept, messages.len() as int));
    if config.token_threshold >= used {
        config.token_threshold - used
    } else {
        0
    }
}

/// A conversation is due for compaction, given the messages that would be kept:
/// there are enough messages to summarize, and they exceed what the kept ones
/// leave of the threshold.
pub open spec fn exceeds_threshold(
    messages: Seq<MessageModel>,
    config: CompactionConfig,
    kept: Set<int>,
) -> bool {
    let n = messages.len() as int;
    let rest = remaining_threshold(messages, config, kept);
    &&& unpinned(kept, n).len() >= MIN_SUMMARIZE_MESSAGES
    &&& rest == 0 || saturated(tokens_in(messages, kept.complement(), n)) > rest
}

/// A conversation is due for compaction.
pub open spec fn compaction_due(
    messages: Seq<MessageModel>,
    config: CompactionConfig,
    workspace: Option<&Workspace>,
    pins: Seq<usize>,
    paths: Seq<Seq<char>>,
) -> bool {
    &&& config.enabled
    &&& reaches_floor(messages, config)
    &&& exceeds_threshold(
        messages,
        config,
        plan_pins(messages, workspace, KEEP_RECENT_MESSAGES as int, pins, paths),
    )
}

/// Below its floor a conversation is not compacted, whatever its threshold.
pub proof fn no_compaction_below_floor(
    messages: Seq<MessageModel>,
    config: CompactionConfig,
    workspace: Option<&Workspace>,
    pins: Seq<usize>,
    paths: Seq<Seq<char>>,
)
    requires
        tokens_in(messages, Set::full(), messages.len() as int) < config.auto_floor_tokens,
    ensures
        !compaction_due(messages, config, workspace, pins, paths),
{
    lemma_tokens_nonnegative(messages, Set::full(), messages.len() as int);
}

/// Whether a conversation is due for automatic compaction.
pub fn should_compact(
    messages: &[Message],
    config: &CompactionConfig,
    workspace: Option<&Workspace>,
    external_pins: Option<&[usize]>,
    external_working_set_paths: Option<&[String]>,
) -> (res: bool)
    ensures
        res == compaction_due(
            conversation(messages@),
            *config,
            workspace,
            pin_list(external_pins),
            path_list(external_working_set_paths),
        ),
{
    if !config.enabled {
        return false;
    }
    let ghost models = conversation(messages@);
    let total: usize = messages.len();
    if config.auto_floor_tokens > 0 {
        let mut session: usize = 0;
        let mut i: usize = 0;
        while i < total
            invariant
                i <= total == messages@.len() == models.len(),
                models == conversation(messages@),
                session == saturated(tokens_in(models, Set::full(), i as int)),
            decreases total - i,
        {
            let tokens = estimate_tokens_for_message(&messages[i], false);
            proof {
                lemma_tokens_nonnegative(models, Set::full(), i as int);
                lemma_blocks_tokens_nonnegative(models[i as int].content, false);
                assert(models[i as int] == messages@[i as int]@);
            }
            session = session.saturating_add(tokens);
            i += 1;
        }
        if session < config.auto_floor_tokens {
            return false;
        }
    }
    let plan = plan_compaction(
        messages,
        workspace,
        KEEP_RECENT_MESSAGES,
        external_pins,
        external_working_set_paths,
    );
    let ghost kept = indices(plan.pinned_indices@);
    let mut pinned_tokens: usize = 0;
    let mut token_estimate: usize = 0;
    let mut i: usize = 0;
    while i < total
        invariant
            i <= total == messages@.len() == models.len(),
            models == conversation(messages@),
            kept == indices(plan.pinned_indices@),
            pinned_tokens == saturated(tokens_in(models, kept, i as int)),
            token_estimate == saturated(tokens_in(models, kept.complement(), i as int)),
        decreases total - i,
    {
        let tokens = estimate_tokens_for_message(&messages[i], false);
        proof {
            lemma_tokens_nonnegative(models, kept, i as int);
            lemma_tokens_nonnegative(models, kept.complement(), i as int);
            lemma_blocks_tokens_nonnegative(models[i as int].content, false);
            assert(models[i as int] == messages@[i as int]@);
        }
        if plan.pinned_indices.contains(&i) {
            pinned_tokens = pinned_tokens.saturating_add(tokens);
        } else {
            token_estimate = token_estimate.saturating_add(tokens);
        }
        i += 1;
    }
    let count: usize = plan.summarize_indices.len();
    let threshold: usize = config.token_threshold.saturating_sub(pinned_tokens);
    if threshold == 0 {
        return count >= MIN_SUMMARIZE_MESSAGES;
    }
    if count < MIN_SUMMARIZE_MESSAGES {
        return false;
    }
    token_estimate > threshold
}

} // verus!
