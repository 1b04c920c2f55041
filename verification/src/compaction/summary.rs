//! Compaction itself: what is asked of the model, what becomes of its summary,
//! and when a failed attempt is made again.

use vstd::prelude::*;

use crate::compaction::estimation::{
    conversation_tokens, estimate_tokens, lemma_conversation_tokens_nonnegative, prompt_ref_model,
    saturated,
};
use crate::compaction::extraction::{
    append_bullets, bullet_lines, extract_workflow_context, workflow_facts, workflow_text,
};
use crate::compaction::pairing::indices;
use crate::compaction::planning::{path_list, pin_list, plan_compaction, plan_pins, unpinned};
use crate::compaction::pruning::{
    prune_tool_results, pruned, pruned_bytes, tail_chars, truncate_chars,
};
use crate::compaction::rules::{
    compaction_due, should_compact, summary_input_limits_for_model, summary_limits,
    CompactionConfig, SummaryInputLimits, CACHE_ALIGNED_SUMMARY_CONTEXT_BUDGET_PERCENT,
    KEEP_RECENT_MESSAGES, LARGE_CONTEXT_WINDOW_TOKENS,
};
use crate::errors::{classify_error_message, error_category, ErrorCategory};
use crate::models::{
    block_models, clone_messages, context_window, context_window_for_model, conversation,
    prompt_model, system_block_models, BlockModel, CacheControl, ContentBlock, Message,
    MessageModel, MessageRequest, MessageRequestModel, SystemBlock, SystemBlockModel, SystemPrompt,
    SystemPromptModel,
};
use crate::paths::{workspace_root, Workspace};
use crate::text::{
    char_count, decimal, decimal_text, first_chars, is_blank, join, joined, last_chars, same_text,
    split_at_text, split_text, texts, trim, trimmed,
};

verus! {

/// How often a failed compaction is tried again.
pub const MAX_RETRIES: u32 = 3;

/// The delay before the first retry, in milliseconds. Each further delay is
/// twice as long.
pub const BASE_DELAY_MS: u64 = 1000;

/// Tokens set aside for the instruction of a summary request.
pub const SUMMARY_PROMPT_TOKENS: usize = 512;

/// What stands between two anchors in the anchors file.
pub const ANCHOR_SEPARATOR: &'static str = "\n---\n";

/// What a summary says before the anchored facts.
pub const ANCHOR_HEADING: &'static str = "## Pinned Facts (User Anchors)\n\nThe following facts were explicitly anchored by the user with `/anchor`. Preserve them across compaction cycles.\n\n";

/// What stands before the summary.
pub const SUMMARY_HEADING: &'static str = "## 📋 Conversation Summary (Auto-Generated)\n\n";

/// What stands between the summary and the workflow context.
pub const WORKFLOW_HEADING: &'static str = "\n\n---\n\n## 🔍 Workflow Context\n\n";

/// What stands behind the workflow context.
pub const NEXT_STEPS: &'static str = "\n\n---\n\n## 💡 What to Do Next\n\nYou have just resumed from a context compaction. The conversation above was summarized to save space. Review the summary and workflow context, then continue helping the user with their task. If you need more details about the summarized portion, ask the user to clarify.\n\n---\n\nPinned messages follow:";

/// The instruction of a summary request, up to the word limit.
pub const SUMMARY_INSTRUCTION: &'static str = "Summarize the conversation above in a concise but comprehensive way. Preserve key information, decisions made, exact file paths, commands, errors, and tool-result facts needed to continue the work. Tool outputs may be abbreviated only when they are repetitive. Keep it under ";

/// The system prompt of a summary request that carries a transcript.
pub const SUMMARY_SYSTEM_PROMPT: &'static str = "You are a helpful assistant that creates concise conversation summaries.";

/// Result of a compaction.
#[derive(Debug)]
pub struct CompactionResult {
    /// Compacted messages
    pub messages: Vec<Message>,
    /// Summary system prompt
    pub summary_prompt: Option<SystemPrompt>,
    /// Messages that were removed from the active window
    pub removed_messages: Vec<Message>,
    /// Number of retries used before success
    pub retries_used: u32,
}

// ---------------------------------------------------------------------------
// Retries
// ---------------------------------------------------------------------------

/// A category of failures that may pass.
pub open spec fn is_transient(category: ErrorCategory) -> bool {
    category == ErrorCategory::Network || category == ErrorCategory::RateLimit || category
        == ErrorCategory::Timeout
}

/// Whether an error with this message is worth a retry.
pub fn is_transient_error(message: &str) -> (res: bool)
    ensures
        res == is_transient(error_category(message@)),
{
    match classify_error_message(message) {
        ErrorCategory::Network => true,
        ErrorCategory::RateLimit => true,
        ErrorCategory::Timeout => true,
        _ => false,
    }
}

/// What follows a failed attempt.
#[derive(Debug, Clone, Copy, PartialEq, Eq, Structural)]
pub enum RetryDecision {
    /// Try again after this delay.
    RetryAfter { delay_ms: u64 },
    /// Report the error.
    GiveUp,
}

/// The delay before retry number `attempt + 1`.
pub open spec fn retry_delay_ms(attempt: nat) -> nat
    decreases attempt,
{
    if attempt == 0 {
        BASE_DELAY_MS as nat
    } else {
        2 * retry_delay_ms((attempt - 1) as nat)
    }
}

/// What follows when attempt number `attempt`, counted from zero, failed with
/// this message: transient failures are tried again, with delays of one, two
/// and four seconds.
pub fn retry_decision(attempt: u32, message: &str) -> (res: RetryDecision)
    ensures
        attempt < MAX_RETRIES && is_transient(error_category(message@)) ==> res == (
        RetryDecision::RetryAfter { delay_ms: retry_delay_ms(attempt as nat) as u64 }),
        !(attempt < MAX_RETRIES && is_transient(error_category(message@))) ==> res
            == RetryDecision::GiveUp,
{
    if attempt < MAX_RETRIES && is_transient_error(message) {
        proof { reveal_with_fuel(retry_delay_ms, 4); }
        let delay_ms: u64 = if attempt == 0 {
            BASE_DELAY_MS
        } else if attempt == 1 {
            BASE_DELAY_MS * 2
        } else {
            BASE_DELAY_MS * 4
        };
        RetryDecision::RetryAfter { delay_ms }
    } else {
        RetryDecision::GiveUp
    }
}

/// What a compaction starts from.
pub enum CompactionInput {
    /// Pruning alone was enough.
    Pruned(CompactionResult),
    /// These messages are to be compacted.
    Compact(Vec<Message>),
}

/// Pruning alone brings a conversation below the threshold.
pub open spec fn pruning_suffices(
    messages: Seq<MessageModel>,
    config: CompactionConfig,
    workspace: Option<&Workspace>,
    pins: Seq<usize>,
    paths: Seq<Seq<char>>,
) -> bool {
    let after = pruned(messages, KEEP_RECENT_MESSAGES as nat);
    &&& pruned_bytes(messages, KEEP_RECENT_MESSAGES as nat) > 0
    &&& compaction_due(messages, config, workspace, pins, paths)
    &&& !compaction_due(after, config, workspace, pins, paths)
}

/// Prunes tool results before anything is asked of a model. Where that alone
/// ends the need for compaction, it is the result.
pub fn prepare_compaction(
    messages: &[Message],
    config: &CompactionConfig,
    workspace: Option<&Workspace>,
    external_pins: Option<&[usize]>,
    external_working_set_paths: Option<&[String]>,
) -> (res: CompactionInput)
    ensures
        ({
            let all = conversation(messages@);
            let after = pruned(all, KEEP_RECENT_MESSAGES as nat);
            if pruning_suffices(
                all,
                *config,
                workspace,
                pin_list(external_pins),
                path_list(external_working_set_paths),
            ) {
                res matches CompactionInput::Pruned(result) && conversation(result.messages@)
                    == after && result.summary_prompt is None && result.removed_messages@.len() == 0
                    && result.retries_used == 0
            } else {
                res matches CompactionInput::Compact(input) && conversation(input@) == after
            }
        }),
{
    let ghost all = conversation(messages@);
    let mut input = clone_messages(messages);
    let saved = prune_tool_results(&mut input, KEEP_RECENT_MESSAGES);
    if saved > 0 {
        let was_over = should_compact(
            messages,
            config,
            workspace,
            external_pins,
            external_working_set_paths,
        );
        let now_under = !should_compact(
            input.as_slice(),
            config,
            workspace,
            external_pins,
            external_working_set_paths,
        );
        if was_over && now_under {
            return CompactionInput::Pruned(
                CompactionResult {
                    messages: input,
                    summary_prompt: None,
                    removed_messages: Vec::new(),
                    retries_used: 0,
                },
            );
        }
    }
    CompactionInput::Compact(input)
}

// ---------------------------------------------------------------------------
// Anchors
// ---------------------------------------------------------------------------

/// The non-empty ones among trimmed parts.
pub open spec fn nonblank_parts(parts: Seq<Seq<char>>) -> Seq<Seq<char>>
    decreases parts.len(),
{
    if parts.len() == 0 {
        Seq::empty()
    } else {
        let rest = nonblank_parts(parts.drop_last());
        if trimmed(parts.last()).len() == 0 {
            rest
        } else {
            rest.push(trimmed(parts.last()))
        }
    }
}

/// The anchors that a file's content holds.
pub open spec fn anchors_in(content: Seq<char>) -> Seq<Seq<char>> {
    nonblank_parts(split_text(content, ANCHOR_SEPARATOR@))
}

/// The anchors of a workspace, from the content of its anchors file.
pub fn parse_anchors(content: &str) -> (res: Vec<String>)
    ensures
        texts(res@) == anchors_in(content@),
{
    proof { reveal_strlit("\n---\n"); }
    let parts = split_at_text(content, ANCHOR_SEPARATOR);
    let ghost all = texts(parts@);
    let mut out: Vec<String> = Vec::new();
    let mut i: usize = 0;
    proof {
        assert(all.take(0) =~= Seq::empty());
        assert(texts(out@) =~= Seq::empty());
    }
    while i < parts.len()
        invariant
            i <= parts@.len() == all.len(),
            all == texts(parts@),
            texts(out@) == nonblank_parts(all.take(i as int)),
        decreases parts@.len() - i,
    {
        proof { assert(all.take(i + 1).drop_last() =~= all.take(i as int)); }
        if !is_blank(parts[i].as_str()) {
            let part = trim(parts[i].as_str());
            let ghost before = out@;
            out.push(part);
            proof { assert(texts(out@) =~= texts(before).push(part@)); }
        }
        i += 1;
    }
    proof { assert(all.take(i as int) =~= all); }
    out
}

/// The anchors of a workspace whose anchors file could be read, else none.
pub open spec fn anchors_of(content: Option<&str>) -> Seq<Seq<char>> {
    match content {
        Some(content) => anchors_in(content@),
        None => Seq::empty(),
    }
}

/// The section of a summary that lists the anchored facts.
pub open spec fn anchors_section(anchors: Seq<Seq<char>>) -> Seq<char> {
    if anchors.len() == 0 {
        Seq::empty()
    } else {
        ANCHOR_HEADING@ + bullet_lines(anchors) + "\n---\n\n"@
    }
}

/// The section of a summary that lists the anchored facts, from the content of
/// the anchors file where it could be read.
pub fn anchor_summary_section(anchors_file: Option<&str>) -> (res: String)
    ensures
        res@ == anchors_section(anchors_of(anchors_file)),
{
    let anchors = match anchors_file {
        Some(content) => parse_anchors(content),
        None => Vec::new(),
    };
    proof { assert(texts(anchors@) =~= anchors_of(anchors_file)); }
    let mut section = String::new();
    if anchors.len() == 0 {
        return section;
    }
    section.append(ANCHOR_HEADING);
    append_bullets(&mut section, &anchors);
    section.append("\n---\n\n");
    section
}

// ---------------------------------------------------------------------------
// Requests
// ---------------------------------------------------------------------------

/// A conversation can be replayed whole, with the instruction behind it: the
/// model's window is large, and the conversation leaves room in it.
pub open spec fn fits_cache_aligned(model: Seq<char>, messages: Seq<MessageModel>) -> bool {
    context_window(model) matches Some(window) && window >= LARGE_CONTEXT_WINDOW_TOKENS
        && saturated(conversation_tokens(messages) + SUMMARY_PROMPT_TOKENS) <= window as int
        * CACHE_ALIGNED_SUMMARY_CONTEXT_BUDGET_PERCENT as int / 100
}

/// Whether the conversation is replayed verbatim, which keeps the prompt cache,
/// rather than sent as a transcript.
pub fn should_use_cache_aligned_summary(model: &str, messages: &[Message]) -> (res: bool)
    ensures
        res == fits_cache_aligned(model@, conversation(messages@)),
{
    match context_window_for_model(model) {
        None => false,
        Some(window) => {
            if window < LARGE_CONTEXT_WINDOW_TOKENS {
                return false;
            }
            let budget: u64 = (window as u64) * (CACHE_ALIGNED_SUMMARY_CONTEXT_BUDGET_PERCENT as u64)
                / 100;
            proof { lemma_conversation_tokens_nonnegative(conversation(messages@)); }
            let needed: usize = estimate_tokens(messages).saturating_add(SUMMARY_PROMPT_TOKENS);
            (needed as u64) <= budget
        },
    }
}

/// The instruction of a summary request.
pub open spec fn instruction(word_limit: nat) -> Seq<char> {
    SUMMARY_INSTRUCTION@ + decimal(word_limit) + " words."@
}

/// The instruction of a summary request.
pub fn summary_instruction(word_limit: usize) -> (res: String)
    ensures
        res@ == instruction(word_limit as nat),
{
    let mut out = String::new();
    out.append(SUMMARY_INSTRUCTION);
    let limit = decimal_text(word_limit as u64);
    out.append(limit.as_str());
    out.append(" words.");
    out
}

/// A user message of one text.
pub open spec fn user_text(text: Seq<char>) -> MessageModel {
    MessageModel { role: "user"@, content: seq![BlockModel::Text { text, cache_control: None }] }
}

fn user_text_message(text: String) -> (res: Message)
    ensures
        res@ == user_text(text@),
{
    let mut content: Vec<ContentBlock> = Vec::new();
    content.push(ContentBlock::Text { text, cache_control: None });
    let res = Message { role: "user".to_owned(), content };
    proof { assert(block_models(res.content@) =~= user_text(text@).content); }
    res
}

/// A summary request with these messages and this system prompt.
pub open spec fn request_model(
    model: Seq<char>,
    messages: Seq<MessageModel>,
    max_tokens: u32,
    system: Option<SystemPromptModel>,
) -> MessageRequestModel {
    MessageRequestModel {
        model,
        messages,
        max_tokens,
        system,
        tools: None,
        tool_choice: None,
        metadata: None,
        thinking: None,
        reasoning_effort: None,
        stream: Some(false),
        temperature_thousandths: Some(300),
        top_p_thousandths: None,
    }
}

fn summary_request(
    model: &str,
    messages: Vec<Message>,
    max_tokens: u32,
    system: Option<SystemPrompt>,
) -> (res: MessageRequest)
    ensures
        res@ == request_model(model@, conversation(messages@), max_tokens, prompt_model(system)),
{
    MessageRequest {
        model: model.to_owned(),
        messages,
        max_tokens,
        system,
        tools: None,
        tool_choice: None,
        metadata: None,
        thinking: None,
        reasoning_effort: None,
        stream: Some(false),
        temperature_thousandths: Some(300),
        top_p_thousandths: None,
    }
}

/// A request that replays the conversation and asks for a summary behind it.
pub fn build_cache_aligned_summary_request(
    model: &str,
    messages: &[Message],
    limits: SummaryInputLimits,
) -> (res: MessageRequest)
    ensures
        res@ == request_model(
            model@,
            conversation(messages@).push(user_text(instruction(limits.word_limit as nat))),
            limits.max_tokens,
            None,
        ),
{
    let mut all = clone_messages(messages);
    let ghost before = all@;
    let last = user_text_message(summary_instruction(limits.word_limit));
    all.push(last);
    proof { assert(conversation(all@) =~= conversation(before).push(last@)); }
    summary_request(model, all, limits.max_tokens, None)
}

/// The speaker of a message in a transcript.
pub open spec fn speaker(role: Seq<char>) -> Seq<char> {
    if role == "user"@ {
        "User"@
    } else {
        "Assistant"@
    }
}

/// One block of a transcript.
pub open spec fn transcript_block(
    role: Seq<char>,
    block: BlockModel,
    limits: SummaryInputLimits,
) -> Seq<char> {
    match block {
        BlockModel::Text { text, .. } => speaker(role) + ": "@ + first_chars(
            text,
            limits.text_snippet_chars as int,
        ) + "\n\n"@,
        BlockModel::ToolUse { name, .. } => speaker(role) + ": [Used tool: "@ + name + "]\n\n"@,
        BlockModel::ToolResult { content, .. } => "Tool result: "@ + first_chars(
            content,
            limits.tool_result_snippet_chars as int,
        ) + "\n\n"@,
        _ => Seq::empty(),
    }
}

/// The blocks of one message in a transcript.
pub open spec fn transcript_blocks(
    role: Seq<char>,
    blocks: Seq<BlockModel>,
    limits: SummaryInputLimits,
) -> Seq<char>
    decreases blocks.len(),
{
    if blocks.len() == 0 {
        Seq::empty()
    } else {
        transcript_blocks(role, blocks.drop_last(), limits) + transcript_block(
            role,
            blocks.last(),
            limits,
        )
    }
}

/// The transcript of a conversation. Reasoning is left out, and long texts and
/// results are cut.
pub open spec fn transcript(messages: Seq<MessageModel>, limits: SummaryInputLimits) -> Seq<char>
    decreases messages.len(),
{
    if messages.len() == 0 {
        Seq::empty()
    } else {
        transcript(messages.drop_last(), limits) + transcript_blocks(
            messages.last().role,
            messages.last().content,
            limits,
        )
    }
}

/// How many characters are left out of a transcript that is cut to its head and
/// its tail.
pub open spec fn omitted_chars(text: Seq<char>, limits: SummaryInputLimits) -> nat {
    let rest = text.len() - first_chars(text, limits.input_head_chars as int).len() - last_chars(
        text,
        limits.input_tail_chars as int,
    ).len();
    if rest >= 0 {
        rest as nat
    } else {
        0
    }
}

/// A transcript that is too long is cut to its head and its tail.
pub open spec fn bounded_transcript(text: Seq<char>, limits: SummaryInputLimits) -> Seq<char> {
    if text.len() > limits.input_max_chars {
        first_chars(text, limits.input_head_chars as int) + "\n\n[... "@ + decimal(
            omitted_chars(text, limits),
        ) + " characters omitted before summary ...]\n\n"@ + last_chars(
            text,
            limits.input_tail_chars as int,
        )
    } else {
        text
    }
}

fn append_transcript(
    out: &mut String,
    role: &str,
    blocks: &Vec<ContentBlock>,
    limits: SummaryInputLimits,
)
    ensures
        final(out)@ == old(out)@ + transcript_blocks(role@, block_models(blocks@), limits),
{
    let ghost models = block_models(blocks@);
    let ghost start = out@;
    let name = if same_text(role, "user") {
        "User"
    } else {
        "Assistant"
    };
    proof { assert(models.take(0) =~= Seq::empty()); }
    let mut i: usize = 0;
    while i < blocks.len()
        invariant
            i <= blocks@.len() == models.len(),
            models == block_models(blocks@),
            name@ == speaker(role@),
            out@ =~= start + transcript_blocks(role@, models.take(i as int), limits),
        decreases blocks@.len() - i,
    {
        let ghost before = out@;
        match &blocks[i] {
            ContentBlock::Text { text, .. } => {
                let snippet = truncate_chars(text.as_str(), limits.text_snippet_chars);
                out.append(name);
                out.append(": ");
                out.append(snippet);
                out.append("\n\n");
            },
            ContentBlock::ToolUse { name: tool, .. } => {
                out.append(name);
                out.append(": [Used tool: ");
                out.append(tool.as_str());
                out.append("]\n\n");
            },
            ContentBlock::ToolResult { content, .. } => {
                let snippet = truncate_chars(content.as_str(), limits.tool_result_snippet_chars);
                out.append("Tool result: ");
                out.append(snippet);
                out.append("\n\n");
            },
            _ => {},
        }
        proof {
            assert(models.take(i + 1).drop_last() =~= models.take(i as int));
            assert(out@ =~= before + transcript_block(role@, models[i as int], limits));
        }
        i += 1;
    }
    proof { assert(models.take(i as int) =~= models); }
}

fn make_transcript(messages: &[Message], limits: SummaryInputLimits) -> (res: String)
    ensures
        res@ == transcript(conversation(messages@), limits),
{
    let ghost all = conversation(messages@);
    let mut out = String::new();
    proof { assert(all.take(0) =~= Seq::empty()); }
    let mut i: usize = 0;
    while i < messages.len()
        invariant
            i <= messages@.len() == all.len(),
            all == conversation(messages@),
            out@ == transcript(all.take(i as int), limits),
        decreases messages@.len() - i,
    {
        proof {
            assert(all.take(i + 1).drop_last() =~= all.take(i as int));
            assert(all[i as int] == messages@[i as int]@);
        }
        append_transcript(&mut out, messages[i].role.as_str(), &messages[i].content, limits);
        i += 1;
    }
    proof { assert(all.take(i as int) =~= all); }
    out
}

fn bound_transcript(text: String, limits: SummaryInputLimits) -> (res: String)
    ensures
        res@ == bounded_transcript(text@, limits),
{
    let total = char_count(text.as_str());
    if total <= limits.input_max_chars {
        return text;
    }
    let head = truncate_chars(text.as_str(), limits.input_head_chars);
    let tail = tail_chars(text.as_str(), limits.input_tail_chars);
    let omitted: usize = total.saturating_sub(char_count(head)).saturating_sub(
        char_count(tail.as_str()),
    );
    let mut out = String::new();
    out.append(head);
    out.append("\n\n[... ");
    let count = decimal_text(omitted as u64);
    out.append(count.as_str());
    out.append(" characters omitted before summary ...]\n\n");
    out.append(tail.as_str());
    out
}

/// A request that carries the conversation as a transcript.
pub fn build_formatted_summary_request(
    model: &str,
    messages: &[Message],
    limits: SummaryInputLimits,
) -> (res: MessageRequest)
    ensures
        res@ == request_model(
            model@,
            seq![
                user_text(
                    instruction(limits.word_limit as nat) + "\n\n---\n\n"@ + bounded_transcript(
                        transcript(conversation(messages@), limits),
                        limits,
                    ),
                ),
            ],
            limits.max_tokens,
            Some(SystemPromptModel::Text(SUMMARY_SYSTEM_PROMPT@)),
        ),
{
    let text = bound_transcript(make_transcript(messages, limits), limits);
    let mut prompt = summary_instruction(limits.word_limit);
    prompt.append("\n\n---\n\n");
    prompt.append(text.as_str());
    let mut all: Vec<Message> = Vec::new();
    let message = user_text_message(prompt);
    all.push(message);
    proof { assert(conversation(all@) =~= seq![message@]); }
    summary_request(
        model,
        all,
        limits.max_tokens,
        Some(SystemPrompt::Text(SUMMARY_SYSTEM_PROMPT.to_owned())),
    )
}

/// The request for a summary of these messages.
pub open spec fn summary_request_model(model: Seq<char>, messages: Seq<MessageModel>) -> MessageRequestModel {
    let limits = summary_limits(model);
    if fits_cache_aligned(model, messages) {
        request_model(
            model,
            messages.push(user_text(instruction(limits.word_limit as nat))),
            limits.max_tokens,
            None,
        )
    } else {
        request_model(
            model,
            seq![
                user_text(
                    instruction(limits.word_limit as nat) + "\n\n---\n\n"@ + bounded_transcript(
                        transcript(messages, limits),
                        limits,
                    ),
                ),
            ],
            limits.max_tokens,
            Some(SystemPromptModel::Text(SUMMARY_SYSTEM_PROMPT@)),
        )
    }
}

/// The request for a summary of these messages, and whether it replays them.
pub fn build_summary_request(model: &str, messages: &[Message]) -> (res: (MessageRequest, bool))
    ensures
        res.0@ == summary_request_model(model@, conversation(messages@)),
        res.1 == fits_cache_aligned(model@, conversation(messages@)),
{
    let limits = summary_input_limits_for_model(model);
    if should_use_cache_aligned_summary(model, messages) {
        (build_cache_aligned_summary_request(model, messages, limits), true)
    } else {
        (build_formatted_summary_request(model, messages, limits), false)
    }
}

/// The text blocks among `blocks`.
pub open spec fn text_blocks(blocks: Seq<BlockModel>) -> Seq<Seq<char>>
    decreases blocks.len(),
{
    if blocks.len() == 0 {
        Seq::empty()
    } else {
        match blocks.last() {
            BlockModel::Text { text, .. } => text_blocks(blocks.drop_last()).push(text),
            _ => text_blocks(blocks.drop_last()),
        }
    }
}

/// The summary that a model's reply holds: its text blocks, a line break
/// between them.
pub fn summary_from_response(content: &Vec<ContentBlock>) -> (res: String)
    ensures
        res@ == joined(text_blocks(block_models(content@)), "\n"@),
{
    let ghost models = block_models(content@);
    let mut parts: Vec<String> = Vec::new();
    proof {
        assert(models.take(0) =~= Seq::empty());
        assert(texts(parts@) =~= Seq::empty());
    }
    let mut i: usize = 0;
    while i < content.len()
        invariant
            i <= content@.len() == models.len(),
            models == block_models(content@),
            texts(parts@) == text_blocks(models.take(i as int)),
        decreases content@.len() - i,
    {
        proof { assert(models.take(i + 1).drop_last() =~= models.take(i as int)); }
        if let ContentBlock::Text { text, .. } = &content[i] {
            let part = text.clone();
            let ghost before = parts@;
            parts.push(part);
            proof { assert(texts(parts@) =~= texts(before).push(part@)); }
        }
        i += 1;
    }
    proof { assert(models.take(i as int) =~= models); }
    join(&parts, "\n")
}

// ---------------------------------------------------------------------------
// Compaction
// ---------------------------------------------------------------------------

/// Those of the first `n` messages that are in `set`, in order.
pub open spec fn messages_in(messages: Seq<MessageModel>, set: Set<int>, n: int) -> Seq<MessageModel>
    decreases n,
{
    if n <= 0 {
        Seq::empty()
    } else if set.contains(n - 1) {
        messages_in(messages, set, n - 1).push(messages[n - 1])
    } else {
        messages_in(messages, set, n - 1)
    }
}

/// What a compaction asks for.
pub enum CompactionStep {
    /// There is nothing to summarize: these messages stay.
    Unchanged(Vec<Message>),
    /// The first messages stay; the second ones give way to the summary that
    /// the request asks for. The flag says whether the request replays them.
    Summarize {
        kept: Vec<Message>,
        removed: Vec<Message>,
        request: MessageRequest,
        cache_aligned: bool,
    },
}

fn select_messages(
    messages: &[Message],
    pinned: &std::collections::BTreeSet<usize>,
    wanted: bool,
) -> (res: Vec<Message>)
    ensures
        wanted ==> conversation(res@) == messages_in(
            conversation(messages@),
            indices(pinned@),
            messages@.len() as int,
        ),
        !wanted ==> conversation(res@) == messages_in(
            conversation(messages@),
            indices(pinned@).complement(),
            messages@.len() as int,
        ),
{
    let ghost all = conversation(messages@);
    let ghost set = if wanted {
        indices(pinned@)
    } else {
        indices(pinned@).complement()
    };
    let mut out: Vec<Message> = Vec::new();
    proof { assert(conversation(out@) =~= Seq::empty()); }
    let mut i: usize = 0;
    while i < messages.len()
        invariant
            i <= messages@.len() == all.len(),
            all == conversation(messages@),
            set == (if wanted {
                indices(pinned@)
            } else {
                indices(pinned@).complement()
            }),
            conversation(out@) == messages_in(all, set, i as int),
        decreases messages@.len() - i,
    {
        if pinned.contains(&i) == wanted {
            let message = messages[i].clone();
            let ghost before = out@;
            out.push(message);
            proof {
                assert(conversation(out@) =~= conversation(before).push(message@));
                assert(all[i as int] == message@);
            }
        }
        i += 1;
    }
    out
}

/// Splits a conversation into what a compaction keeps and what it summarizes,
/// and makes the request for the summary.
pub fn begin_compaction(
    messages: &[Message],
    config: &CompactionConfig,
    workspace: Option<&Workspace>,
    external_pins: Option<&[usize]>,
    external_working_set_paths: Option<&[String]>,
) -> (res: CompactionStep)
    ensures
        ({
            let all = conversation(messages@);
            let n = all.len() as int;
            let pins = plan_pins(
                all,
                workspace,
                KEEP_RECENT_MESSAGES as int,
                pin_list(external_pins),
                path_list(external_working_set_paths),
            );
            match res {
                CompactionStep::Unchanged(same) => unpinned(pins, n).len() == 0 && conversation(
                    same@,
                ) == all,
                CompactionStep::Summarize { kept, removed, request, cache_aligned } => {
                    &&& unpinned(pins, n).len() > 0
                    &&& conversation(kept@) == messages_in(all, pins, n)
                    &&& conversation(removed@) == messages_in(all, pins.complement(), n)
                    &&& request@ == summary_request_model(config.model@, conversation(removed@))
                    &&& cache_aligned == fits_cache_aligned(
                        config.model@,
                        conversation(removed@),
                    )
                },
            }
        }),
{
    let plan = plan_compaction(
        messages,
        workspace,
        KEEP_RECENT_MESSAGES,
        external_pins,
        external_working_set_paths,
    );
    if plan.summarize_indices.len() == 0 {
        return CompactionStep::Unchanged(clone_messages(messages));
    }
    let removed = select_messages(messages, &plan.pinned_indices, false);
    let kept = select_messages(messages, &plan.pinned_indices, true);
    let (request, cache_aligned) = build_summary_request(config.model.as_str(), removed.as_slice());
    CompactionStep::Summarize { kept, removed, request, cache_aligned }
}

/// The text of the prompt that replaces the summarized messages.
pub open spec fn summary_text(
    anchors: Seq<Seq<char>>,
    summary: Seq<char>,
    workflow: Seq<char>,
) -> Seq<char> {
    anchors_section(anchors) + SUMMARY_HEADING@ + summary + WORKFLOW_HEADING@ + workflow
        + NEXT_STEPS@
}

/// The system prompt that replaces the summarized messages.
pub open spec fn summary_prompt_model(
    removed: Seq<MessageModel>,
    summary: Seq<char>,
    anchors: Seq<Seq<char>>,
    cache_summary: bool,
    root: Option<Seq<char>>,
) -> SystemPromptModel {
    SystemPromptModel::Blocks(
        seq![
            SystemBlockModel {
                block_type: "text"@,
                text: summary_text(anchors, summary, workflow_text(workflow_facts(removed), root)),
                cache_control: if cache_summary {
                    Some("ephemeral"@)
                } else {
                    None
                },
            },
        ],
    )
}

/// Ends a compaction: the kept messages, the system prompt that replaces the
/// summarized ones, and the summarized ones. The prompt is made of the model's
/// summary, the workflow that was summarized and the workspace's anchors.
pub fn compact_messages(
    kept: Vec<Message>,
    removed: Vec<Message>,
    summary: &str,
    anchors_file: Option<&str>,
    config: &CompactionConfig,
    workspace: Option<&Workspace>,
) -> (res: (Vec<Message>, Option<SystemPrompt>, Vec<Message>))
    ensures
        res.0 == kept,
        prompt_model(res.1) == Some(
            summary_prompt_model(
                conversation(removed@),
                summary@,
                anchors_of(anchors_file),
                config.cache_summary,
                workspace_root(workspace),
            ),
        ),
        res.2 == removed,
{
    let workflow = extract_workflow_context(removed.as_slice(), workspace);
    let mut text = anchor_summary_section(anchors_file);
    text.append(SUMMARY_HEADING);
    text.append(summary);
    text.append(WORKFLOW_HEADING);
    text.append(workflow.as_str());
    text.append(NEXT_STEPS);
    let cache_control = if config.cache_summary {
        Some(CacheControl { cache_type: "ephemeral".to_owned() })
    } else {
        None
    };
    let block = SystemBlock { block_type: "text".to_owned(), text, cache_control };
    let mut blocks: Vec<SystemBlock> = Vec::new();
    blocks.push(block);
    proof { assert(system_block_models(blocks@) =~= seq![block@]); }
    (kept, Some(SystemPrompt::Blocks(blocks)), removed)
}

/// A compaction loses no message: every message is kept or handed back as
/// removed, as often as it occurred.
pub proof fn compaction_loses_no_message(messages: Seq<MessageModel>, kept: Set<int>)
    ensures
        messages_in(messages, kept, messages.len() as int).to_multiset().add(
            messages_in(messages, kept.complement(), messages.len() as int).to_multiset(),
        ) == messages.to_multiset(),
{
    lemma_split_multiset(messages, kept, messages.len() as int);
    assert(messages.take(messages.len() as int) =~= messages);
}

proof fn lemma_split_multiset(messages: Seq<MessageModel>, kept: Set<int>, n: int)
    requires
        0 <= n <= messages.len(),
    ensures
        messages_in(messages, kept, n).to_multiset().add(
            messages_in(messages, kept.complement(), n).to_multiset(),
        ) == messages.take(n).to_multiset(),
    decreases n,
{
    broadcast use vstd::seq_lib::group_to_multiset_ensures;

    if n > 0 {
        lemma_split_multiset(messages, kept, n - 1);
        assert(messages.take(n) =~= messages.take(n - 1).push(messages[n - 1]));
    } else {
        assert(messages.take(n) =~= Seq::empty());
        assert(messages_in(messages, kept, n).to_multiset().add(
            messages_in(messages, kept.complement(), n).to_multiset(),
        ) =~= messages.take(n).to_multiset());
    }
}

// ---------------------------------------------------------------------------
// Merging prompts
// ---------------------------------------------------------------------------

/// The blocks of a system prompt.
pub open spec fn prompt_blocks(prompt: SystemPromptModel) -> Seq<SystemBlockModel> {
    match prompt {
        SystemPromptModel::Text(text) => seq![
            SystemBlockModel { block_type: "text"@, text, cache_control: None },
        ],
        SystemPromptModel::Blocks(blocks) => blocks,
    }
}

/// The original prompt with the summary behind it. Either alone stays as it is.
pub open spec fn merged_prompt(
    original: Option<SystemPromptModel>,
    summary: Option<SystemPromptModel>,
) -> Option<SystemPromptModel> {
    match (original, summary) {
        (None, s) => s,
        (Some(o), None) => Some(o),
        (Some(o), Some(s)) => Some(SystemPromptModel::Blocks(prompt_blocks(o) + prompt_blocks(s))),
    }
}

/// Merging loses no block of either prompt and keeps them in order.
pub proof fn merging_keeps_blocks(original: SystemPromptModel, summary: SystemPromptModel)
    ensures
        merged_prompt(Some(original), Some(summary)) matches Some(merged) && prompt_blocks(merged)
            == prompt_blocks(original) + prompt_blocks(summary),
{
}

fn text_block(text: String) -> (res: SystemBlock)
    ensures
        res@ == (SystemBlockModel { block_type: "text"@, text: text@, cache_control: None }),
{
    SystemBlock { block_type: "text".to_owned(), text, cache_control: None }
}

fn to_blocks(prompt: SystemPrompt) -> (res: Vec<SystemBlock>)
    ensures
        system_block_models(res@) == prompt_blocks(prompt@),
{
    match prompt {
        SystemPrompt::Text(text) => {
            let mut blocks: Vec<SystemBlock> = Vec::new();
            let block = text_block(text);
            blocks.push(block);
            proof { assert(system_block_models(blocks@) =~= seq![block@]); }
            blocks
        },
        SystemPrompt::Blocks(blocks) => blocks,
    }
}

/// Puts the summary prompt of a compaction behind the original system prompt.
pub fn merge_system_prompts(original: Option<&SystemPrompt>, summary: Option<SystemPrompt>) -> (res:
    Option<SystemPrompt>)
    ensures
        prompt_model(res) == merged_prompt(prompt_ref_model(original), prompt_model(summary)),
{
    match (original, summary) {
        (None, None) => None,
        (Some(orig), None) => Some(orig.clone()),
        (None, Some(sum)) => Some(sum),
        (Some(orig), Some(sum)) => {
            let mut blocks = to_blocks(orig.clone());
            let mut more = to_blocks(sum);
            let ghost a = blocks@;
            let ghost b = more@;
            blocks.append(&mut more);
            proof {
                assert(system_block_models(blocks@) =~= system_block_models(a)
                    + system_block_models(b));
            }
            Some(SystemPrompt::Blocks(blocks))
        },
    }
}

} // verus!
