//! Token estimates.
//!
//! A token is taken to be about four bytes. Sums saturate at the largest
//! machine integer.

use vstd::prelude::*;

use crate::json::{json_text, json_to_string};
use crate::models::{
    block_models, conversation, system_block_models, BlockModel, ContentBlock, Message,
    MessageModel, SystemBlockModel, SystemPrompt, SystemPromptModel,
};
use crate::text::{byte_len, char_count, str_byte_len};

verus! {

/// `n`, cut off at the largest machine integer.
pub open spec fn saturated(n: int) -> int {
    if n > usize::MAX {
        usize::MAX as int
    } else {
        n
    }
}

/// `n / d`, rounded up.
pub open spec fn ceil_div(n: int, d: int) -> int {
    (n + d - 1) / d
}

fn div_up(n: usize, d: usize) -> (res: usize)
    requires
        2 <= d <= 3,
    ensures
        res == ceil_div(n as int, d as int),
{
    let q: usize = n / d;
    let r: usize = n % d;
    proof {
        assert(ceil_div(n as int, d as int) == if n as int % d as int > 0 {
            n as int / d as int + 1
        } else {
            n as int / d as int
        }) by (nonlinear_arith)
            requires
                2 <= d <= 3,
        ;
        assert(q <= n / 2) by (nonlinear_arith)
            requires
                q == n / d,
                2 <= d <= 3,
        ;
    }
    if r > 0 {
        q + 1
    } else {
        q
    }
}

fn mul_sat(a: usize, b: usize) -> (res: usize)
    requires
        b > 0,
    ensures
        res == saturated(a * b),
{
    if a > usize::MAX / b {
        proof {
            assert(a * b > usize::MAX) by (nonlinear_arith)
                requires
                    a > usize::MAX / b,
                    b > 0,
            ;
        }
        usize::MAX
    } else {
        proof {
            assert(a * b <= usize::MAX) by (nonlinear_arith)
                requires
                    a <= usize::MAX / b,
                    b > 0,
            ;
        }
        a * b
    }
}

/// Estimated tokens of one block. Reasoning counts only where it is replayed.
pub open spec fn block_tokens(block: BlockModel, include_thinking: bool) -> int {
    match block {
        BlockModel::Text { text, .. } => byte_len(text) as int / 4,
        BlockModel::Thinking { thinking } => if include_thinking {
            byte_len(thinking) as int / 4
        } else {
            0
        },
        BlockModel::ToolUse { input, .. } => byte_len(json_text(input)) as int / 4,
        BlockModel::ToolResult { content, .. } => byte_len(content) as int / 4,
        _ => 0,
    }
}

/// Estimated tokens of a list of blocks.
pub open spec fn blocks_tokens(blocks: Seq<BlockModel>, include_thinking: bool) -> int
    decreases blocks.len(),
{
    if blocks.len() == 0 {
        0
    } else {
        blocks_tokens(blocks.drop_last(), include_thinking) + block_tokens(
            blocks.last(),
            include_thinking,
        )
    }
}

/// Estimated tokens of one message.
pub open spec fn message_tokens(message: MessageModel, include_thinking: bool) -> int {
    blocks_tokens(message.content, include_thinking)
}

/// A block is a tool call.
pub open spec fn is_tool_use(block: BlockModel) -> bool {
    block is ToolUse
}

/// A message holds a tool call.
pub open spec fn has_tool_use(message: MessageModel) -> bool {
    exists|i: int| 0 <= i < message.content.len() && is_tool_use(#[trigger] message.content[i])
}

/// Estimated tokens of a conversation: reasoning counts in the messages that
/// hold a tool call.
pub open spec fn conversation_tokens(messages: Seq<MessageModel>) -> int
    decreases messages.len(),
{
    if messages.len() == 0 {
        0
    } else {
        conversation_tokens(messages.drop_last()) + message_tokens(
            messages.last(),
            has_tool_use(messages.last()),
        )
    }
}

/// Estimates are never negative.
pub proof fn lemma_blocks_tokens_nonnegative(blocks: Seq<BlockModel>, include_thinking: bool)
    ensures
        blocks_tokens(blocks, include_thinking) >= 0,
    decreases blocks.len(),
{
    if blocks.len() > 0 {
        lemma_blocks_tokens_nonnegative(blocks.drop_last(), include_thinking);
    }
}

/// Estimates are never negative.
pub proof fn lemma_conversation_tokens_nonnegative(messages: Seq<MessageModel>)
    ensures
        conversation_tokens(messages) >= 0,
    decreases messages.len(),
{
    if messages.len() > 0 {
        lemma_conversation_tokens_nonnegative(messages.drop_last());
        lemma_blocks_tokens_nonnegative(messages.last().content, has_tool_use(messages.last()));
    }
}

/// Adding a message never lowers the estimate of a conversation.
pub proof fn estimate_grows_with_messages(messages: Seq<MessageModel>, message: MessageModel)
    ensures
        conversation_tokens(messages) <= conversation_tokens(messages.push(message)),
{
    assert(messages.push(message).drop_last() =~= messages);
    lemma_blocks_tokens_nonnegative(message.content, has_tool_use(message));
}

/// The estimate of two conversations joined is the sum of both, as far as the
/// counter reaches.
pub proof fn estimates_add_up(a: Seq<MessageModel>, b: Seq<MessageModel>)
    ensures
        conversation_tokens(a + b) == conversation_tokens(a) + conversation_tokens(b),
        saturated(conversation_tokens(a + b)) == saturated(
            saturated(conversation_tokens(a)) + saturated(conversation_tokens(b)),
        ),
    decreases b.len(),
{
    lemma_conversation_tokens_nonnegative(a);
    lemma_conversation_tokens_nonnegative(b);
    if b.len() == 0 {
        assert(a + b =~= a);
    } else {
        assert((a + b).drop_last() =~= a + b.drop_last());
        estimates_add_up(a, b.drop_last());
    }
}

/// Estimated tokens of one message.
pub fn estimate_tokens_for_message(message: &Message, include_thinking: bool) -> (res: usize)
    ensures
        res == saturated(message_tokens(message@, include_thinking)),
{
    let ghost models = block_models(message.content@);
    let mut total: usize = 0;
    let mut i: usize = 0;
    while i < message.content.len()
        invariant
            i <= message.content@.len() == models.len(),
            models == block_models(message.content@),
            total == saturated(blocks_tokens(models.take(i as int), include_thinking)),
        decreases message.content@.len() - i,
    {
        let tokens: usize = match &message.content[i] {
            ContentBlock::Text { text, .. } => str_byte_len(text.as_str()) / 4,
            ContentBlock::Thinking { thinking } => if include_thinking {
                str_byte_len(thinking.as_str()) / 4
            } else {
                0
            },
            ContentBlock::ToolUse { input, .. } => {
                let text = json_to_string(input);
                str_byte_len(text.as_str()) / 4
            },
            ContentBlock::ToolResult { content, .. } => str_byte_len(content.as_str()) / 4,
            ContentBlock::ServerToolUse { .. } => 0,
            ContentBlock::ToolSearchToolResult { .. } => 0,
            ContentBlock::CodeExecutionToolResult { .. } => 0,
        };
        proof {
            assert(tokens == block_tokens(models[i as int], include_thinking));
            assert(models.take(i + 1).drop_last() =~= models.take(i as int));
            lemma_blocks_tokens_nonnegative(models.take(i as int), include_thinking);
        }
        total = total.saturating_add(tokens);
        i += 1;
    }
    proof { assert(models.take(i as int) =~= models); }
    total
}

/// Whether a message holds a tool call.
pub fn message_has_tool_use(message: &Message) -> (res: bool)
    ensures
        res == has_tool_use(message@),
{
    let mut i: usize = 0;
    while i < message.content.len()
        invariant
            i <= message.content@.len(),
            forall|j: int| 0 <= j < i ==> !is_tool_use(#[trigger] message@.content[j]),
        decreases message.content@.len() - i,
    {
        if let ContentBlock::ToolUse { .. } = &message.content[i] {
            proof { assert(is_tool_use(message@.content[i as int])); }
            return true;
        }
        i += 1;
    }
    false
}

/// Estimated tokens of a conversation.
pub fn estimate_tokens(messages: &[Message]) -> (res: usize)
    ensures
        res == saturated(conversation_tokens(conversation(messages@))),
{
    let ghost models = conversation(messages@);
    let mut total: usize = 0;
    let mut i: usize = 0;
    while i < messages.len()
        invariant
            i <= messages@.len() == models.len(),
            models == conversation(messages@),
            total == saturated(conversation_tokens(models.take(i as int))),
        decreases messages@.len() - i,
    {
        let replayed = message_has_tool_use(&messages[i]);
        let tokens = estimate_tokens_for_message(&messages[i], replayed);
        proof {
            assert(models[i as int] == messages@[i as int]@);
            assert(models.take(i + 1).drop_last() =~= models.take(i as int));
            lemma_conversation_tokens_nonnegative(models.take(i as int));
            lemma_blocks_tokens_nonnegative(models[i as int].content, replayed);
        }
        total = total.saturating_add(tokens);
        i += 1;
    }
    proof { assert(models.take(i as int) =~= models); }
    total
}

/// Conservative token estimate of a text: three characters a token, rounded up.
pub open spec fn text_tokens(text: Seq<char>) -> int {
    ceil_div(text.len() as int, 3)
}

/// Conservative token estimate of a text.
pub fn estimate_text_tokens_conservative(text: &str) -> (res: usize)
    ensures
        res == text_tokens(text@),
{
    div_up(char_count(text), 3)
}

/// Conservative token estimate of a list of system blocks.
pub open spec fn system_blocks_tokens(blocks: Seq<SystemBlockModel>) -> int
    decreases blocks.len(),
{
    if blocks.len() == 0 {
        0
    } else {
        system_blocks_tokens(blocks.drop_last()) + text_tokens(blocks.last().text)
    }
}

/// Conservative token estimate of a system prompt.
pub open spec fn system_tokens(system: Option<SystemPromptModel>) -> int {
    match system {
        Some(SystemPromptModel::Text(text)) => text_tokens(text),
        Some(SystemPromptModel::Blocks(blocks)) => system_blocks_tokens(blocks),
        None => 0,
    }
}

/// The model of a borrowed optional prompt.
pub open spec fn prompt_ref_model(system: Option<&SystemPrompt>) -> Option<SystemPromptModel> {
    match system {
        Some(p) => Some(p@),
        None => None,
    }
}

proof fn lemma_system_blocks_tokens_nonnegative(blocks: Seq<SystemBlockModel>)
    ensures
        system_blocks_tokens(blocks) >= 0,
    decreases blocks.len(),
{
    if blocks.len() > 0 {
        lemma_system_blocks_tokens_nonnegative(blocks.drop_last());
    }
}

/// Conservative token estimate of a system prompt.
pub fn estimate_system_tokens_conservative(system: Option<&SystemPrompt>) -> (res: usize)
    ensures
        res == saturated(system_tokens(prompt_ref_model(system))),
{
    match system {
        Some(SystemPrompt::Text(text)) => estimate_text_tokens_conservative(text.as_str()),
        Some(SystemPrompt::Blocks(blocks)) => {
            let ghost models = system_block_models(blocks@);
            let mut total: usize = 0;
            let mut i: usize = 0;
            while i < blocks.len()
                invariant
                    i <= blocks@.len() == models.len(),
                    models == system_block_models(blocks@),
                    total == saturated(system_blocks_tokens(models.take(i as int))),
                decreases blocks@.len() - i,
            {
                let tokens = estimate_text_tokens_conservative(blocks[i].text.as_str());
                proof {
                    assert(models.take(i + 1).drop_last() =~= models.take(i as int));
                    lemma_system_blocks_tokens_nonnegative(models.take(i as int));
                }
                total = total.saturating_add(tokens);
                i += 1;
            }
            proof { assert(models.take(i as int) =~= models); }
            total
        },
        None => 0,
    }
}

/// Conservative token estimate of a whole request: one and a half times the
/// estimate of the messages, the system prompt, and framing.
pub open spec fn input_tokens(messages: Seq<MessageModel>, system: Option<SystemPromptModel>) -> int {
    let message_part = ceil_div(saturated(saturated(conversation_tokens(messages)) * 3), 2);
    let framing = saturated(messages.len() as int * 12 + 48);
    saturated(message_part + saturated(system_tokens(system)) + framing)
}

/// Conservative estimate for full request input tokens (messages + system +
/// framing).
#[must_use]
pub fn estimate_input_tokens_conservative(
    messages: &[Message],
    system: Option<&SystemPrompt>,
) -> (res: usize)
    ensures
        res == input_tokens(conversation(messages@), prompt_ref_model(system)),
{
    let estimate = estimate_tokens(messages);
    let message_part = div_up(mul_sat(estimate, 3), 2);
    let system_part = estimate_system_tokens_conservative(system);
    let framing = mul_sat(messages.len(), 12).saturating_add(48);
    message_part.saturating_add(system_part).saturating_add(framing)
}

} // verus!
