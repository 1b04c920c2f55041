//! What token estimates count, and when a conversation is compacted.

use vstd::prelude::*;

use crate::compaction::estimation::{
    blocks_tokens, conversation_tokens, estimates_add_up, has_tool_use, input_tokens, is_tool_use,
    lemma_conversation_tokens_nonnegative, message_tokens, saturated, system_blocks_tokens,
    system_tokens, text_tokens,
};
use crate::json::json_text;
use crate::models::{BlockModel, MessageModel, SystemBlockModel, SystemPromptModel};
use crate::text::byte_len;

verus! {

// ---------------------------------------------------------------------------
// Messages
// ---------------------------------------------------------------------------

/// A message without one of its blocks.
pub open spec fn without_block(message: MessageModel, k: int) -> MessageModel {
    MessageModel { role: message.role, content: message.content.remove(k) }
}

/// A message without its reasoning.
pub open spec fn without_reasoning(message: MessageModel) -> MessageModel {
    MessageModel {
        role: message.role,
        content: message.content.filter(|b: BlockModel| !(b is Thinking)),
    }
}

proof fn lemma_blocks_add(a: Seq<BlockModel>, b: Seq<BlockModel>, thinking: bool)
    ensures
        blocks_tokens(a + b, thinking) == blocks_tokens(a, thinking) + blocks_tokens(b, thinking),
    decreases b.len(),
{
    if b.len() == 0 {
        assert(a + b =~= a);
    } else {
        assert((a + b).drop_last() =~= a + b.drop_last());
        lemma_blocks_add(a, b.drop_last(), thinking);
    }
}

proof fn lemma_one_message(messages: Seq<MessageModel>, i: int)
    requires
        0 <= i < messages.len(),
    ensures
        conversation_tokens(messages) == conversation_tokens(messages.take(i)) + message_tokens(
            messages[i],
            has_tool_use(messages[i]),
        ) + conversation_tokens(messages.skip(i + 1)),
{
    let one = seq![messages[i]];
    assert(messages =~= messages.take(i) + one + messages.skip(i + 1));
    estimates_add_up(messages.take(i) + one, messages.skip(i + 1));
    estimates_add_up(messages.take(i), one);
    assert(one.drop_last() =~= Seq::empty());
    assert(conversation_tokens(one.drop_last()) == 0);
    assert(one.last() == messages[i]);
}

/// Putting another message in the place of one changes the estimate by their
/// difference.
proof fn lemma_replaced_message(messages: Seq<MessageModel>, i: int, other: MessageModel)
    requires
        0 <= i < messages.len(),
    ensures
        conversation_tokens(messages.update(i, other)) - conversation_tokens(messages)
            == message_tokens(other, has_tool_use(other)) - message_tokens(
            messages[i],
            has_tool_use(messages[i]),
        ),
{
    lemma_one_message(messages, i);
    lemma_one_message(messages.update(i, other), i);
    assert(messages.update(i, other).take(i) =~= messages.take(i));
    assert(messages.update(i, other).skip(i + 1) =~= messages.skip(i + 1));
}

proof fn lemma_block_weight(blocks: Seq<BlockModel>, k: int, thinking: bool)
    requires
        0 <= k < blocks.len(),
    ensures
        blocks_tokens(blocks, thinking) - blocks_tokens(blocks.remove(k), thinking) == (
        match blocks[k] {
            BlockModel::Text { text, .. } => byte_len(text) as int / 4,
            BlockModel::ToolResult { content, .. } => byte_len(content) as int / 4,
            BlockModel::ToolUse { input, .. } => byte_len(json_text(input)) as int / 4,
            BlockModel::Thinking { thinking: t } => if thinking {
                byte_len(t) as int / 4
            } else {
                0
            },
            _ => 0,
        }),
{
    let one = seq![blocks[k]];
    assert(blocks =~= blocks.take(k) + one + blocks.skip(k + 1));
    assert(blocks.remove(k) =~= blocks.take(k) + blocks.skip(k + 1));
    lemma_blocks_add(blocks.take(k) + one, blocks.skip(k + 1), thinking);
    lemma_blocks_add(blocks.take(k), one, thinking);
    lemma_blocks_add(blocks.take(k), blocks.skip(k + 1), thinking);
    assert(one.drop_last() =~= Seq::empty());
    assert(blocks_tokens(one.drop_last(), thinking) == 0);
    assert(one.last() == blocks[k]);
}

proof fn lemma_reasoning_is_free(blocks: Seq<BlockModel>)
    ensures
        blocks_tokens(blocks.filter(|b: BlockModel| !(b is Thinking)), false) == blocks_tokens(
            blocks,
            false,
        ),
    decreases blocks.len(),
{
    reveal(Seq::filter);
    if blocks.len() > 0 {
        lemma_reasoning_is_free(blocks.drop_last());
        let rest = blocks.drop_last().filter(|b: BlockModel| !(b is Thinking));
        if !(blocks.last() is Thinking) {
            assert(rest.push(blocks.last()).drop_last() =~= rest);
        }
    }
}

/// Reasoning that is not sent back is not counted: in a message without tool
/// calls it may be left out, or be anything else.
pub proof fn unsent_reasoning_does_not_count(messages: Seq<MessageModel>, i: int)
    requires
        0 <= i < messages.len(),
        forall|k: int|
            0 <= k < messages[i].content.len() ==> !((#[trigger] messages[i].content[k]) is ToolUse),
    ensures
        conversation_tokens(messages.update(i, without_reasoning(messages[i])))
            == conversation_tokens(messages),
{
    let other = without_reasoning(messages[i]);
    lemma_replaced_message(messages, i, other);
    lemma_reasoning_is_free(messages[i].content);
    assert(!has_tool_use(messages[i]));
    assert(!has_tool_use(other)) by {
        assert forall|k: int| 0 <= k < other.content.len() implies !is_tool_use(
            #[trigger] other.content[k],
        ) by {
            let pred = |b: BlockModel| !(b is Thinking);
            messages[i].content.lemma_filter_contains_rev(pred, other.content[k]);
            let j = choose|j: int|
                0 <= j < messages[i].content.len() && messages[i].content[j] == other.content[k];
            assert(!(messages[i].content[j] is ToolUse));
        }
    }
}

/// Reasoning that is sent back is counted: in a message with a tool call each
/// reasoning block adds a quarter of its bytes.
pub proof fn sent_reasoning_counts(messages: Seq<MessageModel>, i: int, k: int, call: int)
    requires
        0 <= i < messages.len(),
        0 <= k < messages[i].content.len(),
        0 <= call < messages[i].content.len(),
        messages[i].content[call] is ToolUse,
        messages[i].content[k] is Thinking,
    ensures
        messages[i].content[k] matches BlockModel::Thinking { thinking } && conversation_tokens(
            messages,
        ) == conversation_tokens(messages.update(i, without_block(messages[i], k))) + byte_len(
            thinking,
        ) as int / 4,
{
    let other = without_block(messages[i], k);
    lemma_replaced_message(messages, i, other);
    assert(is_tool_use(messages[i].content[call]));
    let at = if call < k {
        call
    } else {
        call - 1
    };
    assert(other.content[at] == messages[i].content[call]);
    assert(is_tool_use(other.content[at]));
    assert(has_tool_use(messages[i]) && has_tool_use(other));
    lemma_block_weight(messages[i].content, k, true);
}

/// Texts, results and calls add a quarter of their bytes: taking one of them
/// out of a message lowers the estimate by that much. Other blocks are free.
/// A call may be taken out where the message holds another one.
pub proof fn blocks_count_their_bytes(messages: Seq<MessageModel>, i: int, k: int)
    requires
        0 <= i < messages.len(),
        0 <= k < messages[i].content.len(),
        !(messages[i].content[k] is Thinking),
        messages[i].content[k] is ToolUse ==> exists|j: int|
            0 <= j < messages[i].content.len() && j != k && (
            #[trigger] messages[i].content[j]) is ToolUse,
    ensures
        conversation_tokens(messages) - conversation_tokens(
            messages.update(i, without_block(messages[i], k)),
        ) == (match messages[i].content[k] {
            BlockModel::Text { text, .. } => byte_len(text) as int / 4,
            BlockModel::ToolResult { content, .. } => byte_len(content) as int / 4,
            BlockModel::ToolUse { input, .. } => byte_len(json_text(input)) as int / 4,
            _ => 0,
        }),
{
    let content = messages[i].content;
    let other = without_block(messages[i], k);
    lemma_replaced_message(messages, i, other);
    if has_tool_use(messages[i]) {
        let j = choose|j: int| 0 <= j < content.len() && j != k && (#[trigger] content[j]) is ToolUse;
        let c = choose|c: int| 0 <= c < content.len() && is_tool_use(#[trigger] content[c]);
        let w = if content[k] is ToolUse {
            j
        } else {
            c
        };
        let at = if w < k {
            w
        } else {
            w - 1
        };
        assert(other.content[at] == content[w]);
        assert(is_tool_use(other.content[at]));
    } else {
        assert(!has_tool_use(other)) by {
            assert forall|j: int| 0 <= j < other.content.len() implies !is_tool_use(
                #[trigger] other.content[j],
            ) by {
                let at = if j < k {
                    j
                } else {
                    j + 1
                };
                assert(other.content[j] == content[at]);
                assert(!is_tool_use(content[at]));
            }
        }
    }
    lemma_block_weight(content, k, has_tool_use(messages[i]));
}

/// A conversation without messages is estimated at nothing, and so is one of
/// messages without blocks.
pub proof fn nothing_counts_nothing(messages: Seq<MessageModel>)
    requires
        forall|i: int| 0 <= i < messages.len() ==> (#[trigger] messages[i]).content.len() == 0,
    ensures
        conversation_tokens(messages) == 0,
    decreases messages.len(),
{
    if messages.len() > 0 {
        assert(messages.last() == messages[messages.len() - 1]);
        nothing_counts_nothing(messages.drop_last());
    }
}

// ---------------------------------------------------------------------------
// Requests
// ---------------------------------------------------------------------------

/// Three characters of a text make a token, and what is left makes one more.
pub proof fn three_characters_make_a_token(text: Seq<char>)
    ensures
        3 * text_tokens(text) >= text.len(),
        3 * text_tokens(text) <= text.len() + 2,
{
}

/// A system prompt of blocks counts as much as its texts one by one.
pub proof fn prompt_blocks_count_one_by_one(blocks: Seq<SystemBlockModel>, block: SystemBlockModel)
    ensures
        system_tokens(Some(SystemPromptModel::Blocks(blocks.push(block)))) == system_tokens(
            Some(SystemPromptModel::Blocks(blocks)),
        ) + system_tokens(Some(SystemPromptModel::Text(block.text))),
        system_tokens(Some(SystemPromptModel::Blocks(Seq::empty()))) == 0,
        3 * system_tokens(Some(SystemPromptModel::Text(block.text))) >= block.text.len(),
{
    assert(blocks.push(block).drop_last() =~= blocks);
    assert(system_blocks_tokens(Seq::empty()) == 0);
}

/// The estimate of a request is made of three parts, as far as the counter
/// reaches: half as much again as the estimate of the messages, rounded up; the
/// estimate of the system prompt; and twelve tokens for each message beside
/// forty-eight.
pub proof fn request_estimate_has_three_parts(
    messages: Seq<MessageModel>,
    system: Option<SystemPromptModel>,
)
    requires
        conversation_tokens(messages) * 3 + system_tokens(system) + messages.len() * 12 + 48
            <= usize::MAX,
        system_tokens(system) >= 0,
    ensures
        ({
            let rest = input_tokens(messages, system) - system_tokens(system) - 12 * messages.len()
                - 48;
            3 * conversation_tokens(messages) <= 2 * rest <= 3 * conversation_tokens(messages) + 1
        }),
        input_tokens(messages, system) == input_tokens(messages, None) + system_tokens(system),
        conversation_tokens(messages) <= input_tokens(messages, system),
{
    lemma_conversation_tokens_nonnegative(messages);
    let part = saturated(saturated(conversation_tokens(messages)) * 3);
    assert(part == conversation_tokens(messages) * 3);
}

} // verus!
