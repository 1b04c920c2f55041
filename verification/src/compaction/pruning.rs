//! Mechanical pruning of old tool results.

use vstd::prelude::*;

use crate::compaction::estimation::saturated;
use crate::json::{json_text, json_to_string, JsonModel, JsonValue};
use crate::models::{
    block_models, conversation, BlockModel, ContentBlock, Message, MessageModel,
};
use crate::text::{
    byte_len, decimal, decimal_text, first_chars, last_chars, same_text, str_byte_len,
};

verus! {

/// Tool results up to this many bytes are kept, unless they are repeated.
pub const SUMMARY_TOOL_RESULT_SNIPPET_CHARS: usize = 240;

/// How many characters of a tool call's arguments a pruned result shows.
pub const ARGS_PREVIEW_CHARS: usize = 120;

/// The first `max_chars` characters of a text.
pub fn truncate_chars(text: &str, max_chars: usize) -> (res: &str)
    ensures
        res@ == first_chars(text@, max_chars as int),
{
    let total = text.unicode_len();
    let end: usize = if max_chars < total { max_chars } else { total };
    proof {
        assert(text@.subrange(0, end as int) =~= first_chars(text@, max_chars as int));
    }
    text.substring_char(0, end)
}

/// The last `max_chars` characters of a text.
pub fn tail_chars(text: &str, max_chars: usize) -> (res: String)
    ensures
        res@ == last_chars(text@, max_chars as int),
{
    let total = text.unicode_len();
    let start: usize = if max_chars < total { total - max_chars } else { 0 };
    proof {
        assert(text@.subrange(start as int, total as int) =~= last_chars(text@, max_chars as int));
    }
    text.substring_char(start, total).to_owned()
}

// ---------------------------------------------------------------------------
// Tool calls
// ---------------------------------------------------------------------------

/// What pruning needs to know of a tool call.
pub struct ToolUseInfo {
    pub id: String,
    pub name: String,
    pub key: String,
    pub args_preview: String,
}

/// The mathematical form of a [`ToolUseInfo`].
#[verifier::ext_equal]
pub struct ToolUseModel {
    pub id: Seq<char>,
    pub name: Seq<char>,
    pub key: Seq<char>,
    pub args_preview: Seq<char>,
}

impl View for ToolUseInfo {
    type V = ToolUseModel;

    open spec fn view(&self) -> ToolUseModel {
        ToolUseModel {
            id: self.id@,
            name: self.name@,
            key: self.key@,
            args_preview: self.args_preview@,
        }
    }
}

/// The models of a list of tool calls.
pub open spec fn tool_use_models(calls: Seq<ToolUseInfo>) -> Seq<ToolUseModel> {
    calls.map_values(|c: ToolUseInfo| c@)
}

/// Two calls with the same key ask the same tool the same thing.
pub open spec fn call_key(name: Seq<char>, input: JsonModel) -> Seq<char> {
    name + ":"@ + json_text(input)
}

/// The key of a tool call.
pub fn tool_use_key(name: &str, input: &JsonValue) -> (res: String)
    ensures
        res@ == call_key(name@, input@),
{
    let mut out = String::new();
    out.append(name);
    out.append(":");
    let json = json_to_string(input);
    out.append(json.as_str());
    out
}

/// The beginning of a tool call's arguments.
pub open spec fn args_preview(input: JsonModel) -> Seq<char> {
    first_chars(json_text(input), ARGS_PREVIEW_CHARS as int)
}

/// The beginning of a tool call's arguments.
pub fn tool_args_preview(input: &JsonValue) -> (res: String)
    ensures
        res@ == args_preview(input@),
{
    let raw = json_to_string(input);
    truncate_chars(raw.as_str(), ARGS_PREVIEW_CHARS).to_owned()
}

/// `calls` and the block's tool call, where it is one.
pub open spec fn with_block_call(calls: Seq<ToolUseModel>, block: BlockModel) -> Seq<ToolUseModel> {
    match block {
        BlockModel::ToolUse { id, name, input, .. } => calls.push(
            ToolUseModel {
                id,
                name,
                key: call_key(name, input),
                args_preview: args_preview(input),
            },
        ),
        _ => calls,
    }
}

/// `calls` and the tool calls of a list of blocks.
pub open spec fn with_blocks_calls(calls: Seq<ToolUseModel>, blocks: Seq<BlockModel>) -> Seq<ToolUseModel>
    decreases blocks.len(),
{
    if blocks.len() == 0 {
        calls
    } else {
        with_block_call(with_blocks_calls(calls, blocks.drop_last()), blocks.last())
    }
}

/// The tool calls of a conversation, in order.
pub open spec fn tool_calls(messages: Seq<MessageModel>) -> Seq<ToolUseModel>
    decreases messages.len(),
{
    if messages.len() == 0 {
        Seq::empty()
    } else {
        with_blocks_calls(tool_calls(messages.drop_last()), messages.last().content)
    }
}

/// The position of the last call of the tool use `id`.
pub open spec fn last_call(calls: Seq<ToolUseModel>, id: Seq<char>) -> Option<int>
    decreases calls.len(),
{
    if calls.len() == 0 {
        None
    } else if calls.last().id == id {
        Some(calls.len() - 1)
    } else {
        last_call(calls.drop_last(), id)
    }
}

proof fn lemma_last_call(calls: Seq<ToolUseModel>, id: Seq<char>)
    ensures
        last_call(calls, id) matches Some(i) ==> 0 <= i < calls.len() && calls[i].id == id,
    decreases calls.len(),
{
    if calls.len() > 0 && calls.last().id != id {
        lemma_last_call(calls.drop_last(), id);
    }
}

/// The tool calls of a conversation, in order.
pub fn collect_tool_uses(messages: &[Message]) -> (res: Vec<ToolUseInfo>)
    ensures
        tool_use_models(res@) == tool_calls(conversation(messages@)),
{
    let ghost all = conversation(messages@);
    let mut out: Vec<ToolUseInfo> = Vec::new();
    let mut i: usize = 0;
    proof {
        assert(all.take(0) =~= Seq::empty());
        assert(tool_use_models(out@) =~= Seq::empty());
    }
    while i < messages.len()
        invariant
            i <= messages@.len() == all.len(),
            all == conversation(messages@),
            tool_use_models(out@) == tool_calls(all.take(i as int)),
        decreases messages@.len() - i,
    {
        let ghost start = tool_use_models(out@);
        let ghost blocks = block_models(messages@[i as int].content@);
        let content = &messages[i].content;
        let mut k: usize = 0;
        proof { assert(blocks.take(0) =~= Seq::empty()); }
        while k < content.len()
            invariant
                k <= content@.len() == blocks.len(),
                blocks == block_models(content@),
                tool_use_models(out@) == with_blocks_calls(start, blocks.take(k as int)),
            decreases content@.len() - k,
        {
            proof { assert(blocks.take(k + 1).drop_last() =~= blocks.take(k as int)); }
            if let ContentBlock::ToolUse { id, name, input, .. } = &content[k] {
                let info = ToolUseInfo {
                    id: id.clone(),
                    name: name.clone(),
                    key: tool_use_key(name.as_str(), input),
                    args_preview: tool_args_preview(input),
                };
                let ghost before = out@;
                out.push(info);
                proof {
                    assert(tool_use_models(out@) =~= tool_use_models(before).push(info@));
                }
            }
            k += 1;
        }
        proof {
            assert(blocks.take(k as int) =~= blocks);
            assert(all.take(i + 1).drop_last() =~= all.take(i as int));
            assert(all[i as int] == messages@[i as int]@);
        }
        i += 1;
    }
    proof { assert(all.take(i as int) =~= all); }
    out
}

fn find_last_call(calls: &Vec<ToolUseInfo>, id: &str) -> (res: Option<usize>)
    ensures
        match res {
            Some(i) => i < calls@.len() && last_call(tool_use_models(calls@), id@) == Some(i as int),
            None => last_call(tool_use_models(calls@), id@) is None,
        },
{
    let ghost all = tool_use_models(calls@);
    let mut n: usize = calls.len();
    proof { assert(all.take(n as int) =~= all); }
    while n > 0
        invariant
            n <= calls@.len() == all.len(),
            all == tool_use_models(calls@),
            last_call(all, id@) == last_call(all.take(n as int), id@),
        decreases n,
    {
        proof {
            assert(all.take(n as int).last() == calls@[n - 1]@);
            assert(all.take(n as int).drop_last() =~= all.take(n - 1));
        }
        if same_text(calls[n - 1].id.as_str(), id) {
            return Some(n - 1);
        }
        n -= 1;
    }
    None
}

// ---------------------------------------------------------------------------
// Results
// ---------------------------------------------------------------------------

/// The call that a tool result answers.
pub open spec fn answered_call(calls: Seq<ToolUseModel>, block: BlockModel) -> Option<int> {
    match block {
        BlockModel::ToolResult { tool_use_id, .. } => last_call(calls, tool_use_id),
        _ => None,
    }
}

/// A tool result: the message that holds it and the key of its call.
pub struct ResultEntry {
    pub message: int,
    pub key: Seq<char>,
}

/// `entries` and the tool results of the blocks of message `i`.
pub open spec fn with_result_entries(
    entries: Seq<ResultEntry>,
    calls: Seq<ToolUseModel>,
    blocks: Seq<BlockModel>,
    i: int,
) -> Seq<ResultEntry>
    decreases blocks.len(),
{
    if blocks.len() == 0 {
        entries
    } else {
        let rest = with_result_entries(entries, calls, blocks.drop_last(), i);
        match answered_call(calls, blocks.last()) {
            Some(c) => rest.push(ResultEntry { message: i, key: calls[c].key }),
            None => rest,
        }
    }
}

/// The tool results with a known call in the first `n` messages, in order.
pub open spec fn result_entries(
    messages: Seq<MessageModel>,
    calls: Seq<ToolUseModel>,
    n: int,
) -> Seq<ResultEntry>
    decreases n,
{
    if n <= 0 {
        Seq::empty()
    } else {
        with_result_entries(
            result_entries(messages, calls, n - 1),
            calls,
            messages[n - 1].content,
            n - 1,
        )
    }
}

/// How many results answer calls with this key.
pub open spec fn count_key(entries: Seq<ResultEntry>, key: Seq<char>) -> nat
    decreases entries.len(),
{
    if entries.len() == 0 {
        0
    } else {
        count_key(entries.drop_last(), key) + (if entries.last().key == key {
            1nat
        } else {
            0
        })
    }
}

/// The last message with a result for this key.
pub open spec fn latest_with_key(entries: Seq<ResultEntry>, key: Seq<char>) -> Option<int>
    decreases entries.len(),
{
    if entries.len() == 0 {
        None
    } else if entries.last().key == key {
        Some(entries.last().message)
    } else {
        latest_with_key(entries.drop_last(), key)
    }
}

/// The line that stands for a pruned result of `len` bytes.
pub open spec fn pruned_summary(call: ToolUseModel, len: nat) -> Seq<char> {
    "["@ + call.name + "] tool result pruned ("@ + decimal(len) + " bytes; args: "@
        + call.args_preview + ")"@
}

/// A result of `call` in message `i` is the freshest of several.
pub open spec fn is_freshest_duplicate(entries: Seq<ResultEntry>, call: ToolUseModel, i: int) -> bool {
    count_key(entries, call.key) > 1 && latest_with_key(entries, call.key) == Some(i)
}

/// A result of `call` with this content in message `i` gives way to its summary.
pub open spec fn is_prunable(
    entries: Seq<ResultEntry>,
    call: ToolUseModel,
    content: Seq<char>,
    i: int,
) -> bool {
    &&& !is_freshest_duplicate(entries, call, i)
    &&& count_key(entries, call.key) > 1 || byte_len(content) > SUMMARY_TOOL_RESULT_SNIPPET_CHARS
    &&& byte_len(pruned_summary(call, byte_len(content))) < byte_len(content)
}

/// What pruning makes of one block of message `i`.
pub open spec fn pruned_block(
    entries: Seq<ResultEntry>,
    calls: Seq<ToolUseModel>,
    block: BlockModel,
    i: int,
) -> BlockModel {
    match block {
        BlockModel::ToolResult { tool_use_id, content, is_error, content_blocks } => match last_call(
            calls,
            tool_use_id,
        ) {
            Some(c) => if is_prunable(entries, calls[c], content, i) {
                BlockModel::ToolResult {
                    tool_use_id,
                    content: pruned_summary(calls[c], byte_len(content)),
                    is_error,
                    content_blocks: None,
                }
            } else {
                block
            },
            None => block,
        },
        _ => block,
    }
}

/// What pruning makes of the blocks of message `i`.
pub open spec fn pruned_blocks(
    entries: Seq<ResultEntry>,
    calls: Seq<ToolUseModel>,
    blocks: Seq<BlockModel>,
    i: int,
) -> Seq<BlockModel> {
    blocks.map_values(|b: BlockModel| pruned_block(entries, calls, b, i))
}

/// How many messages lie before the protected window.
pub open spec fn prune_cutoff(n: nat, protected_window: nat) -> int {
    if n >= protected_window {
        n - protected_window
    } else {
        0
    }
}

/// What pruning makes of message `i`.
pub open spec fn pruned_message(messages: Seq<MessageModel>, protected_window: nat, i: int) -> MessageModel {
    let cutoff = prune_cutoff(messages.len(), protected_window);
    let calls = tool_calls(messages);
    if i < cutoff {
        MessageModel {
            role: messages[i].role,
            content: pruned_blocks(
                result_entries(messages, calls, cutoff),
                calls,
                messages[i].content,
                i,
            ),
        }
    } else {
        messages[i]
    }
}

/// The conversation after pruning: results before the protected window that are
/// long, or repeated later, give way to one-line summaries.
pub open spec fn pruned(messages: Seq<MessageModel>, protected_window: nat) -> Seq<MessageModel> {
    Seq::new(messages.len(), |i: int| pruned_message(messages, protected_window, i))
}

/// Bytes of a tool result's content.
pub open spec fn result_bytes(block: BlockModel) -> int {
    match block {
        BlockModel::ToolResult { content, .. } => byte_len(content) as int,
        _ => 0,
    }
}

/// Bytes of the tool results among a list of blocks.
pub open spec fn blocks_result_bytes(blocks: Seq<BlockModel>) -> int
    decreases blocks.len(),
{
    if blocks.len() == 0 {
        0
    } else {
        blocks_result_bytes(blocks.drop_last()) + result_bytes(blocks.last())
    }
}

/// Bytes of the tool results of a conversation.
pub open spec fn conversation_result_bytes(messages: Seq<MessageModel>) -> int
    decreases messages.len(),
{
    if messages.len() == 0 {
        0
    } else {
        conversation_result_bytes(messages.drop_last()) + blocks_result_bytes(
            messages.last().content,
        )
    }
}

/// How many bytes pruning saves.
pub open spec fn pruned_bytes(messages: Seq<MessageModel>, protected_window: nat) -> int {
    conversation_result_bytes(messages) - conversation_result_bytes(
        pruned(messages, protected_window),
    )
}

// ---------------------------------------------------------------------------
// Laws
// ---------------------------------------------------------------------------

/// Pruning leaves the protected window as it is.
pub proof fn pruning_protects_recent_messages(
    messages: Seq<MessageModel>,
    protected_window: nat,
    i: int,
)
    requires
        0 <= i < messages.len(),
        i >= messages.len() - protected_window,
    ensures
        pruned(messages, protected_window)[i] == messages[i],
{
}

/// Of several results of the same call, pruning keeps those of the last message
/// before the protected window that holds one.
pub proof fn pruning_keeps_freshest_duplicates(
    messages: Seq<MessageModel>,
    protected_window: nat,
    i: int,
    k: int,
)
    requires
        0 <= i < messages.len(),
        0 <= k < messages[i].content.len(),
        ({
            let calls = tool_calls(messages);
            let cutoff = prune_cutoff(messages.len(), protected_window);
            answered_call(calls, messages[i].content[k]) matches Some(c) && is_freshest_duplicate(
                result_entries(messages, calls, cutoff),
                calls[c],
                i,
            )
        }),
    ensures
        pruned(messages, protected_window)[i].content[k] == messages[i].content[k],
{
}

/// Pruning keeps the shape of a conversation: only the content of tool results
/// changes, and no content grows.
pub proof fn pruning_keeps_shape(
    messages: Seq<MessageModel>,
    protected_window: nat,
    i: int,
    k: int,
)
    requires
        0 <= i < messages.len(),
        0 <= k < messages[i].content.len(),
    ensures
        pruned(messages, protected_window).len() == messages.len(),
        pruned(messages, protected_window)[i].role == messages[i].role,
        pruned(messages, protected_window)[i].content.len() == messages[i].content.len(),
        ({
            let before = messages[i].content[k];
            let after = pruned(messages, protected_window)[i].content[k];
            match before {
                BlockModel::ToolResult { tool_use_id, content, is_error, .. } => after matches
                    BlockModel::ToolResult {
                    tool_use_id: id2,
                    content: content2,
                    is_error: error2,
                    ..
                } && id2 == tool_use_id && error2 == is_error && byte_len(content2) <= byte_len(
                    content,
                ),
                _ => after == before,
            }
        }),
{
}

/// Pruning saves bytes exactly when it changes something.
pub proof fn pruning_saves_where_it_changes(messages: Seq<MessageModel>, protected_window: nat)
    ensures
        pruned_bytes(messages, protected_window) >= 0,
        pruned_bytes(messages, protected_window) == 0 <==> pruned(messages, protected_window)
            == messages,
{
    let after = pruned(messages, protected_window);
    lemma_conversation_bytes(messages, after);
    assert(messages.take(messages.len() as int) =~= messages);
    assert(after.take(after.len() as int) =~= after);
}

/// A block after pruning holds fewer bytes, or is the same.
spec fn is_shortened(before: BlockModel, after: BlockModel) -> bool {
    result_bytes(after) < result_bytes(before) || after == before
}

proof fn lemma_blocks_bytes(before: Seq<BlockModel>, after: Seq<BlockModel>)
    requires
        before.len() == after.len(),
        forall|k: int| 0 <= k < before.len() ==> is_shortened(#[trigger] before[k], after[k]),
    ensures
        blocks_result_bytes(after) <= blocks_result_bytes(before),
        blocks_result_bytes(after) == blocks_result_bytes(before) ==> after == before,
    decreases before.len(),
{
    if before.len() > 0 {
        assert forall|k: int| 0 <= k < before.drop_last().len() implies is_shortened(
            #[trigger] before.drop_last()[k],
            after.drop_last()[k],
        ) by {
            assert(is_shortened(before[k], after[k]));
        }
        lemma_blocks_bytes(before.drop_last(), after.drop_last());
        assert(is_shortened(before[before.len() - 1], after[before.len() - 1]));
        if blocks_result_bytes(after) == blocks_result_bytes(before) {
            assert(after =~= after.drop_last().push(after.last()));
            assert(before =~= before.drop_last().push(before.last()));
        }
    } else {
        assert(after =~= before);
    }
}

proof fn lemma_conversation_bytes(before: Seq<MessageModel>, after: Seq<MessageModel>)
    requires
        before.len() == after.len(),
        forall|i: int|
            0 <= i < before.len() ==> (#[trigger] before[i]).role == after[i].role
                && before[i].content.len() == after[i].content.len(),
        forall|i: int, k: int|
            0 <= i < before.len() && 0 <= k < before[i].content.len() ==> is_shortened(
                #[trigger] before[i].content[k],
                after[i].content[k],
            ),
    ensures
        conversation_result_bytes(after) <= conversation_result_bytes(before),
        conversation_result_bytes(after) == conversation_result_bytes(before) ==> after == before,
    decreases before.len(),
{
    if before.len() > 0 {
        let last = before.len() - 1;
        let b = before.drop_last();
        let a = after.drop_last();
        assert forall|i: int, k: int| 0 <= i < b.len() && 0 <= k < b[i].content.len() implies
            is_shortened(#[trigger] b[i].content[k], a[i].content[k]) by {
            assert(is_shortened(before[i].content[k], after[i].content[k]));
        }
        assert forall|i: int| 0 <= i < b.len() implies (#[trigger] b[i]).role == a[i].role
            && b[i].content.len() == a[i].content.len() by {
            assert(before[i].role == after[i].role);
        }
        lemma_conversation_bytes(b, a);
        assert forall|k: int| 0 <= k < before[last].content.len() implies is_shortened(
            #[trigger] before[last].content[k],
            after[last].content[k],
        ) by {}
        lemma_blocks_bytes(before[last].content, after[last].content);
        if conversation_result_bytes(after) == conversation_result_bytes(before) {
            assert(before[last].role == after[last].role);
            assert(after =~= a.push(after.last()));
            assert(before =~= b.push(before.last()));
        }
    } else {
        assert(after =~= before);
    }
}

// ---------------------------------------------------------------------------
// Code
// ---------------------------------------------------------------------------

/// The results found by [`collect_results`], as messages and keys.
spec fn entry_models(entries: Seq<(usize, usize)>, calls: Seq<ToolUseModel>) -> Seq<ResultEntry> {
    entries.map_values(
        |e: (usize, usize)| ResultEntry { message: e.0 as int, key: calls[e.1 as int].key },
    )
}

fn collect_results(messages: &[Message], calls: &Vec<ToolUseInfo>, cutoff: usize) -> (res: Vec<
    (usize, usize),
>)
    requires
        cutoff <= messages@.len(),
    ensures
        entry_models(res@, tool_use_models(calls@)) == result_entries(
            conversation(messages@),
            tool_use_models(calls@),
            cutoff as int,
        ),
        forall|k: int| 0 <= k < res@.len() ==> (#[trigger] res@[k]).1 < calls@.len(),
{
    let ghost all = conversation(messages@);
    let ghost models = tool_use_models(calls@);
    let mut out: Vec<(usize, usize)> = Vec::new();
    let mut i: usize = 0;
    proof { assert(entry_models(out@, models) =~= Seq::empty()); }
    while i < cutoff
        invariant
            i <= cutoff <= messages@.len(),
            all == conversation(messages@),
            models == tool_use_models(calls@),
            entry_models(out@, models) == result_entries(all, models, i as int),
            forall|k: int| 0 <= k < out@.len() ==> (#[trigger] out@[k]).1 < calls@.len(),
        decreases cutoff - i,
    {
        let ghost start = entry_models(out@, models);
        let content = &messages[i].content;
        let ghost blocks = block_models(content@);
        let mut k: usize = 0;
        proof { assert(blocks.take(0) =~= Seq::empty()); }
        while k < content.len()
            invariant
                k <= content@.len() == blocks.len(),
                blocks == block_models(content@),
                models == tool_use_models(calls@),
                entry_models(out@, models) == with_result_entries(
                    start,
                    models,
                    blocks.take(k as int),
                    i as int,
                ),
                forall|k: int| 0 <= k < out@.len() ==> (#[trigger] out@[k]).1 < calls@.len(),
            decreases content@.len() - k,
        {
            proof { assert(blocks.take(k + 1).drop_last() =~= blocks.take(k as int)); }
            if let ContentBlock::ToolResult { tool_use_id, .. } = &content[k] {
                if let Some(c) = find_last_call(calls, tool_use_id.as_str()) {
                    let ghost before = out@;
                    out.push((i, c));
                    proof {
                        assert(entry_models(out@, models) =~= entry_models(before, models).push(
                            ResultEntry { message: i as int, key: models[c as int].key },
                        ));
                    }
                }
            }
            k += 1;
        }
        proof {
            assert(blocks.take(k as int) =~= blocks);
            assert(all[i as int].content == blocks);
        }
        i += 1;
    }
    out
}

/// How many results answer calls with this key, and the last message that holds
/// one.
fn key_uses(entries: &Vec<(usize, usize)>, calls: &Vec<ToolUseInfo>, key: &str) -> (res: (
    usize,
    Option<usize>,
))
    requires
        forall|k: int| 0 <= k < entries@.len() ==> (#[trigger] entries@[k]).1 < calls@.len(),
    ensures
        res.0 == count_key(entry_models(entries@, tool_use_models(calls@)), key@),
        match res.1 {
            Some(m) => latest_with_key(entry_models(entries@, tool_use_models(calls@)), key@)
                == Some(m as int),
            None => latest_with_key(entry_models(entries@, tool_use_models(calls@)), key@) is None,
        },
{
    let ghost models = entry_models(entries@, tool_use_models(calls@));
    let mut count: usize = 0;
    let mut latest: Option<usize> = None;
    let mut i: usize = 0;
    proof { assert(models.take(0) =~= Seq::empty()); }
    while i < entries.len()
        invariant
            i <= entries@.len() == models.len(),
            models == entry_models(entries@, tool_use_models(calls@)),
            forall|k: int| 0 <= k < entries@.len() ==> (#[trigger] entries@[k]).1 < calls@.len(),
            count == count_key(models.take(i as int), key@),
            count <= i,
            match latest {
                Some(m) => latest_with_key(models.take(i as int), key@) == Some(m as int),
                None => latest_with_key(models.take(i as int), key@) is None,
            },
        decreases entries@.len() - i,
    {
        let (m, c) = entries[i];
        proof {
            assert(models.take(i + 1).drop_last() =~= models.take(i as int));
            assert(models[i as int].key == calls@[c as int].key@);
        }
        if same_text(calls[c].key.as_str(), key) {
            count += 1;
            latest = Some(m);
        }
        i += 1;
    }
    proof { assert(models.take(i as int) =~= models); }
    (count, latest)
}

fn summary_line(call: &ToolUseInfo, len: usize) -> (res: String)
    ensures
        res@ == pruned_summary(call@, len as nat),
{
    let mut out = String::new();
    out.append("[");
    out.append(call.name.as_str());
    out.append("] tool result pruned (");
    let count = decimal_text(len as u64);
    out.append(count.as_str());
    out.append(" bytes; args: ");
    out.append(call.args_preview.as_str());
    out.append(")");
    out
}

/// The summary that replaces a result, where it gives way to one.
fn replacement(
    entries: &Vec<(usize, usize)>,
    calls: &Vec<ToolUseInfo>,
    tool_use_id: &str,
    content: &str,
    i: usize,
) -> (res: Option<String>)
    requires
        forall|k: int| 0 <= k < entries@.len() ==> (#[trigger] entries@[k]).1 < calls@.len(),
    ensures
        ({
            let models = tool_use_models(calls@);
            match last_call(models, tool_use_id@) {
                Some(c) => if is_prunable(entry_models(entries@, models), models[c], content@, i as int) {
                    res matches Some(text) && text@ == pruned_summary(models[c], byte_len(content@))
                } else {
                    res is None
                },
                None => res is None,
            }
        }),
{
    match find_last_call(calls, tool_use_id) {
        Some(c) => {
            let call = &calls[c];
            let (count, latest) = key_uses(entries, calls, call.key.as_str());
            let len = str_byte_len(content);
            let is_latest = match latest {
                Some(m) => m == i,
                None => false,
            };
            if count > 1 && is_latest {
                return None;
            }
            if count <= 1 && len <= SUMMARY_TOOL_RESULT_SNIPPET_CHARS {
                return None;
            }
            let summary = summary_line(call, len);
            if str_byte_len(summary.as_str()) >= len {
                return None;
            }
            Some(summary)
        },
        None => None,
    }
}

fn prune_message(
    message: &mut Message,
    entries: &Vec<(usize, usize)>,
    calls: &Vec<ToolUseInfo>,
    i: usize,
) -> (res: usize)
    requires
        forall|k: int| 0 <= k < entries@.len() ==> (#[trigger] entries@[k]).1 < calls@.len(),
    ensures
        final(message)@.role == old(message)@.role,
        final(message)@.content == pruned_blocks(
            entry_models(entries@, tool_use_models(calls@)),
            tool_use_models(calls@),
            old(message)@.content,
            i as int,
        ),
        res == saturated(
            blocks_result_bytes(old(message)@.content) - blocks_result_bytes(
                final(message)@.content,
            ),
        ),
{
    let ghost models = tool_use_models(calls@);
    let ghost marks = entry_models(entries@, models);
    let ghost blocks = message@.content;
    let ghost goal = pruned_blocks(marks, models, blocks, i as int);
    let ghost role = message@.role;
    let mut saved: usize = 0;
    let mut k: usize = 0;
    proof {
        assert(blocks.take(0) =~= Seq::empty());
        assert(goal.take(0) =~= Seq::empty());
    }
    while k < message.content.len()
        invariant
            k <= message.content@.len() == blocks.len() == goal.len(),
            models == tool_use_models(calls@),
            marks == entry_models(entries@, models),
            goal == pruned_blocks(marks, models, blocks, i as int),
            forall|k: int| 0 <= k < entries@.len() ==> (#[trigger] entries@[k]).1 < calls@.len(),
            message.role@ == role,
            forall|j: int| 0 <= j < k ==> (#[trigger] message.content@[j])@ == goal[j],
            forall|j: int|
                k <= j < message.content@.len() ==> (#[trigger] message.content@[j])@ == blocks[j],
            blocks_result_bytes(goal.take(k as int)) <= blocks_result_bytes(blocks.take(k as int)),
            saved == saturated(
                blocks_result_bytes(blocks.take(k as int)) - blocks_result_bytes(
                    goal.take(k as int),
                ),
            ),
        decreases message.content@.len() - k,
    {
        proof {
            assert(blocks.take(k + 1).drop_last() =~= blocks.take(k as int));
            assert(goal.take(k + 1).drop_last() =~= goal.take(k as int));
            assert(blocks[k as int] == message.content@[k as int]@);
            assert(goal[k as int] == pruned_block(marks, models, blocks[k as int], i as int));
        }
        let mut update: Option<(ContentBlock, usize)> = None;
        if let ContentBlock::ToolResult { tool_use_id, content, is_error, .. } = &message.content[k] {
            if let Some(text) = replacement(
                entries,
                calls,
                tool_use_id.as_str(),
                content.as_str(),
                i,
            ) {
                let before = str_byte_len(content.as_str());
                let after = str_byte_len(text.as_str());
                let block = ContentBlock::ToolResult {
                    tool_use_id: tool_use_id.clone(),
                    content: text,
                    is_error: *is_error,
                    content_blocks: None,
                };
                update = Some((block, before - after));
            }
        }
        if let Some((block, gain)) = update {
            proof { assert(block@ == goal[k as int]); }
            message.content.set(k, block);
            saved = saved.saturating_add(gain);
        }
        k += 1;
    }
    proof {
        assert(blocks.take(k as int) =~= blocks);
        assert(goal.take(k as int) =~= goal);
        assert(message@.content =~= goal);
    }
    saved
}

proof fn lemma_same_suffix_bytes(a: Seq<MessageModel>, b: Seq<MessageModel>, c: int)
    requires
        a.len() == b.len(),
        0 <= c <= a.len(),
        forall|i: int| c <= i < a.len() ==> a[i] == b[i],
    ensures
        conversation_result_bytes(a) - conversation_result_bytes(b) == conversation_result_bytes(
            a.take(c),
        ) - conversation_result_bytes(b.take(c)),
    decreases a.len(),
{
    if a.len() == c {
        assert(a.take(c) =~= a);
        assert(b.take(c) =~= b);
    } else {
        lemma_same_suffix_bytes(a.drop_last(), b.drop_last(), c);
        assert(a.drop_last().take(c) =~= a.take(c));
        assert(b.drop_last().take(c) =~= b.take(c));
    }
}

/// Prunes verbose tool results mechanically. The latest `protected_window`
/// messages stay as they are. Before them, of results of the same call the
/// freshest are kept and earlier ones give way to one-line summaries; other
/// results give way when they are long. Returns how many bytes were saved.
pub fn prune_tool_results(messages: &mut [Message], protected_window: usize) -> (res: usize)
    ensures
        conversation(final(messages)@) == pruned(
            conversation(old(messages)@),
            protected_window as nat,
        ),
        res == saturated(pruned_bytes(conversation(old(messages)@), protected_window as nat)),
{
    let ghost all = conversation(messages@);
    let ghost w = protected_window as nat;
    let ghost goal = pruned(all, w);
    let total: usize = messages.len();
    let cutoff: usize = total.saturating_sub(protected_window);
    if cutoff == 0 {
        proof {
            assert(goal =~= all);
        }
        return 0;
    }
    let calls = collect_tool_uses(messages);
    let entries = collect_results(messages, &calls, cutoff);
    let ghost models = tool_use_models(calls@);
    let ghost marks = entry_models(entries@, models);
    let mut saved: usize = 0;
    let mut i: usize = 0;
    proof {
        assert(all.take(0) =~= Seq::empty());
        assert(goal.take(0) =~= Seq::empty());
    }
    while i < cutoff
        invariant
            i <= cutoff <= total == all.len() == goal.len(),
            messages@.len() == total,
            cutoff == prune_cutoff(all.len(), w),
            goal == pruned(all, w),
            models == tool_use_models(calls@),
            models == tool_calls(all),
            marks == entry_models(entries@, models),
            marks == result_entries(all, models, cutoff as int),
            forall|k: int| 0 <= k < entries@.len() ==> (#[trigger] entries@[k]).1 < calls@.len(),
            forall|j: int| 0 <= j < i ==> (#[trigger] messages@[j])@ == goal[j],
            forall|j: int| i <= j < total ==> (#[trigger] messages@[j])@ == all[j],
            conversation_result_bytes(goal.take(i as int)) <= conversation_result_bytes(
                all.take(i as int),
            ),
            saved == saturated(
                conversation_result_bytes(all.take(i as int)) - conversation_result_bytes(
                    goal.take(i as int),
                ),
            ),
        decreases cutoff - i,
    {
        proof {
            assert(all.take(i + 1).drop_last() =~= all.take(i as int));
            assert(goal.take(i + 1).drop_last() =~= goal.take(i as int));
            assert(messages@[i as int]@ == all[i as int]);
            assert(goal[i as int] == pruned_message(all, w, i as int));
            lemma_blocks_bytes(all[i as int].content, goal[i as int].content);
        }
        let gain = prune_message(&mut messages[i], &entries, &calls, i);
        proof { assert(messages@[i as int]@ =~= goal[i as int]); }
        saved = saved.saturating_add(gain);
        i += 1;
    }
    proof {
        assert(conversation(messages@) =~= goal);
        lemma_same_suffix_bytes(all, goal, cutoff as int);
    }
    saved
}

} // verus!
