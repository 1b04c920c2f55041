//! Which tool results pruning keeps, and what it makes of the others.

use vstd::prelude::*;

use crate::compaction::pruning::{
    answered_call, args_preview, blocks_result_bytes, call_key, conversation_result_bytes,
    count_key, last_call, latest_with_key, prune_cutoff, pruned, pruning_saves_where_it_changes,
    result_entries, tool_calls, with_block_call, with_blocks_calls, with_result_entries,
    ResultEntry, ToolUseModel,
};
use crate::compaction::rules::{compaction_due, CompactionConfig};
use crate::compaction::summary::pruning_suffices;
use crate::json::{json_text, JsonModel};
use crate::models::{BlockModel, MessageModel};
use crate::paths::Workspace;
use crate::text::{byte_len, decimal, first_chars};

verus! {

// ---------------------------------------------------------------------------
// Calls and results
// ---------------------------------------------------------------------------

/// Block `b` of message `a` calls a tool under this identifier.
pub open spec fn calls_at(messages: Seq<MessageModel>, a: int, b: int, id: Seq<char>) -> bool {
    &&& 0 <= a < messages.len()
    &&& 0 <= b < messages[a].content.len()
    &&& messages[a].content[b] matches BlockModel::ToolUse { id: i, .. } && i == id
}

/// It is the last block that does.
pub open spec fn calls_last_at(messages: Seq<MessageModel>, a: int, b: int, id: Seq<char>) -> bool {
    &&& calls_at(messages, a, b, id)
    &&& forall|a2: int, b2: int| #[trigger]
        calls_at(messages, a2, b2, id) ==> a2 < a || (a2 == a && b2 <= b)
}

/// Block `k` of message `i` is the result of a call to the tool `name` with
/// this input.
pub open spec fn answers_call(
    messages: Seq<MessageModel>,
    i: int,
    k: int,
    name: Seq<char>,
    input: Seq<char>,
) -> bool {
    &&& 0 <= i < messages.len()
    &&& 0 <= k < messages[i].content.len()
    &&& messages[i].content[k] matches BlockModel::ToolResult { tool_use_id, .. } && exists|
        a: int,
        b: int,
    | #[trigger]
        calls_last_at(messages, a, b, tool_use_id) && (messages[a].content[b] matches
            BlockModel::ToolUse { name: n, input: x, .. } && n + ":"@ + json_text(x) == name
            + ":"@ + input)
}

/// Another result before the window answers the same call.
pub open spec fn has_twin(
    messages: Seq<MessageModel>,
    window: nat,
    i: int,
    k: int,
    name: Seq<char>,
    input: Seq<char>,
) -> bool {
    exists|i2: int, k2: int|
        (i2 != i || k2 != k) && i2 + window < messages.len() && #[trigger] answers_call(
            messages,
            i2,
            k2,
            name,
            input,
        )
}

/// A later message before the window holds a result of the same call.
pub open spec fn is_repeated_later(
    messages: Seq<MessageModel>,
    window: nat,
    i: int,
    name: Seq<char>,
    input: Seq<char>,
) -> bool {
    exists|i2: int, k2: int|
        i < i2 && i2 + window < messages.len() && #[trigger] answers_call(
            messages,
            i2,
            k2,
            name,
            input,
        )
}

proof fn lemma_no_call_in_blocks(calls: Seq<ToolUseModel>, blocks: Seq<BlockModel>, id: Seq<char>)
    requires
        forall|b: int|
            0 <= b < blocks.len() ==> !(#[trigger] blocks[b] matches BlockModel::ToolUse {
                id: i,
                ..
            } && i == id),
    ensures
        last_call(with_blocks_calls(calls, blocks), id) == last_call(calls, id),
        with_blocks_calls(calls, blocks).len() >= calls.len(),
        forall|c: int|
            0 <= c < calls.len() ==> with_blocks_calls(calls, blocks)[c] == #[trigger] calls[c],
    decreases blocks.len(),
{
    if blocks.len() > 0 {
        let front = blocks.drop_last();
        assert forall|b: int| 0 <= b < front.len() implies !(#[trigger] front[b] matches
            BlockModel::ToolUse { id: i, .. } && i == id) by {
            assert(front[b] == blocks[b]);
        }
        lemma_no_call_in_blocks(calls, front, id);
        let rest = with_blocks_calls(calls, front);
        let all = with_block_call(rest, blocks.last());
        assert(blocks.last() == blocks[blocks.len() - 1]);
        if blocks.last() is ToolUse {
            assert(all.drop_last() =~= rest);
        }
    }
}

proof fn lemma_last_call_bound(calls: Seq<ToolUseModel>, id: Seq<char>)
    ensures
        last_call(calls, id) matches Some(c) ==> 0 <= c < calls.len(),
    decreases calls.len(),
{
    if calls.len() > 0 && calls.last().id != id {
        lemma_last_call_bound(calls.drop_last(), id);
    }
}

/// What is known of a call block.
pub open spec fn call_of(block: BlockModel) -> ToolUseModel {
    match block {
        BlockModel::ToolUse { id, name, input, .. } => ToolUseModel {
            id,
            name,
            key: name + ":"@ + json_text(input),
            args_preview: first_chars(json_text(input), 120),
        },
        _ => arbitrary(),
    }
}

proof fn lemma_call_in_blocks(
    calls: Seq<ToolUseModel>,
    blocks: Seq<BlockModel>,
    id: Seq<char>,
    b: int,
)
    requires
        0 <= b < blocks.len(),
        blocks[b] matches BlockModel::ToolUse { id: i, .. } && i == id,
        forall|b2: int|
            b < b2 < blocks.len() ==> !(#[trigger] blocks[b2] matches BlockModel::ToolUse {
                id: i,
                ..
            } && i == id),
    ensures
        last_call(with_blocks_calls(calls, blocks), id) matches Some(c) && 0 <= c
            < with_blocks_calls(calls, blocks).len() && with_blocks_calls(calls, blocks)[c]
            == call_of(blocks[b]),
    decreases blocks.len(),
{
    let front = blocks.drop_last();
    let rest = with_blocks_calls(calls, front);
    let all = with_block_call(rest, blocks.last());
    if b == blocks.len() - 1 {
        assert(all.last() == call_of(blocks[b]));
    } else {
        assert(front[b] == blocks[b]);
        assert forall|b2: int| b < b2 < front.len() implies !(#[trigger] front[b2] matches
            BlockModel::ToolUse { id: i, .. } && i == id) by {
            assert(front[b2] == blocks[b2]);
        }
        lemma_call_in_blocks(calls, front, id, b);
        assert(blocks.last() == blocks[blocks.len() - 1]);
        if blocks.last() is ToolUse {
            assert(all.drop_last() =~= rest);
        }
    }
}

/// A result answers the last call under its identifier.
proof fn lemma_answered(messages: Seq<MessageModel>, a: int, b: int, id: Seq<char>)
    requires
        calls_last_at(messages, a, b, id),
    ensures
        last_call(tool_calls(messages), id) matches Some(c) && 0 <= c < tool_calls(messages).len()
            && tool_calls(messages)[c] == call_of(messages[a].content[b]),
    decreases messages.len(),
{
    let n = messages.len() as int;
    let front = messages.drop_last();
    let last = messages.last();
    if a == n - 1 {
        assert forall|b2: int| b < b2 < last.content.len() implies !(#[trigger] last.content[b2]
            matches BlockModel::ToolUse { id: i, .. } && i == id) by {
            if last.content[b2] matches BlockModel::ToolUse { id: i, .. } && i == id {
                assert(calls_at(messages, a, b2, id));
            }
        }
        lemma_call_in_blocks(tool_calls(front), last.content, id, b);
    } else {
        assert(calls_at(front, a, b, id));
        assert forall|a2: int, b2: int| #[trigger] calls_at(front, a2, b2, id) implies a2 < a || (
        a2 == a && b2 <= b) by {
            assert(calls_at(messages, a2, b2, id));
        }
        lemma_answered(front, a, b, id);
        assert forall|b2: int| 0 <= b2 < last.content.len() implies !(#[trigger] last.content[b2]
            matches BlockModel::ToolUse { id: i, .. } && i == id) by {
            if last.content[b2] matches BlockModel::ToolUse { id: i, .. } && i == id {
                assert(calls_at(messages, n - 1, b2, id));
            }
        }
        lemma_no_call_in_blocks(tool_calls(front), last.content, id);
        lemma_last_call_bound(tool_calls(front), id);
    }
}

/// Where no block calls under an identifier, nothing is answered; otherwise
/// there is a last one that does.
proof fn lemma_unanswered(messages: Seq<MessageModel>, id: Seq<char>)
    ensures
        last_call(tool_calls(messages), id) is Some ==> exists|a: int, b: int| #[trigger]
            calls_last_at(messages, a, b, id),
    decreases messages.len(),
{
    if messages.len() > 0 {
        let n = messages.len() as int;
        let front = messages.drop_last();
        let last = messages.last();
        if exists|b: int| #[trigger] calls_at(messages, n - 1, b, id) {
            let start = choose|b: int| #[trigger] calls_at(messages, n - 1, b, id);
            lemma_last_in_message(messages, n - 1, id, start);
            let b = choose|b: int|
                #[trigger] calls_at(messages, n - 1, b, id) && forall|b2: int|
                    #[trigger] calls_at(messages, n - 1, b2, id) ==> b2 <= b;
            assert(calls_last_at(messages, n - 1, b, id));
        } else {
            assert forall|b2: int| 0 <= b2 < last.content.len() implies !(
            #[trigger] last.content[b2] matches BlockModel::ToolUse { id: i, .. } && i == id) by {
                assert(!calls_at(messages, n - 1, b2, id));
            }
            lemma_no_call_in_blocks(tool_calls(front), last.content, id);
            lemma_unanswered(front, id);
            if last_call(tool_calls(front), id) is Some {
                let (a, b) = choose|a: int, b: int| #[trigger] calls_last_at(front, a, b, id);
                assert(calls_at(messages, a, b, id));
                assert forall|a2: int, b2: int| #[trigger]
                    calls_at(messages, a2, b2, id) implies a2 < a || (a2 == a && b2 <= b) by {
                    assert(a2 != n - 1);
                    assert(calls_at(front, a2, b2, id));
                }
                assert(calls_last_at(messages, a, b, id));
            }
        }
    }
}

proof fn lemma_last_in_message(messages: Seq<MessageModel>, a: int, id: Seq<char>, start: int)
    requires
        calls_at(messages, a, start, id),
    ensures
        exists|b: int| #[trigger]
            calls_at(messages, a, b, id) && forall|b2: int|
                #[trigger] calls_at(messages, a, b2, id) ==> b2 <= b,
    decreases messages[a].content.len() - start,
{
    if exists|b2: int| #[trigger] calls_at(messages, a, b2, id) && b2 > start {
        let b2 = choose|b2: int| #[trigger] calls_at(messages, a, b2, id) && b2 > start;
        lemma_last_in_message(messages, a, id, b2);
    }
}

// ---------------------------------------------------------------------------
// Counting
// ---------------------------------------------------------------------------

spec fn keyed(calls: Seq<ToolUseModel>, block: BlockModel, key: Seq<char>) -> bool {
    answered_call(calls, block) matches Some(c) && calls[c].key == key
}

spec fn block_count(calls: Seq<ToolUseModel>, blocks: Seq<BlockModel>, key: Seq<char>) -> nat
    decreases blocks.len(),
{
    if blocks.len() == 0 {
        0
    } else {
        block_count(calls, blocks.drop_last(), key) + (if keyed(calls, blocks.last(), key) {
            1nat
        } else {
            0
        })
    }
}

proof fn lemma_block_count(
    calls: Seq<ToolUseModel>,
    blocks: Seq<BlockModel>,
    key: Seq<char>,
    k: int,
    k2: int,
)
    ensures
        0 <= k < blocks.len() && keyed(calls, blocks[k], key) ==> block_count(calls, blocks, key)
            >= 1,
        0 <= k < k2 < blocks.len() && keyed(calls, blocks[k], key) && keyed(calls, blocks[k2], key)
            ==> block_count(calls, blocks, key) >= 2,
        (forall|q: int| 0 <= q < blocks.len() && keyed(calls, #[trigger] blocks[q], key) ==> q == k)
            ==> block_count(calls, blocks, key) <= 1,
        (forall|q: int| 0 <= q < blocks.len() ==> !keyed(calls, #[trigger] blocks[q], key))
            ==> block_count(calls, blocks, key) == 0,
    decreases blocks.len(),
{
    if blocks.len() > 0 {
        let front = blocks.drop_last();
        let n = blocks.len() as int;
        assert(blocks.last() == blocks[n - 1]);
        assert forall|q: int| 0 <= q < front.len() implies #[trigger] front[q] == blocks[q] by {}
        lemma_block_count(calls, front, key, k, k2);
        if k2 == n - 1 && 0 <= k < k2 && keyed(calls, blocks[k], key) {
            lemma_block_count(calls, front, key, k, k);
        }
        if (forall|q: int|
            0 <= q < blocks.len() && keyed(calls, #[trigger] blocks[q], key) ==> q == k) {
            if keyed(calls, blocks[n - 1], key) {
                assert forall|q: int| 0 <= q < front.len() implies !keyed(
                    calls,
                    #[trigger] front[q],
                    key,
                ) by {
                    assert(front[q] == blocks[q]);
                }
            } else {
                assert forall|q: int|
                    0 <= q < front.len() && keyed(calls, #[trigger] front[q], key) implies q == k by {
                    assert(front[q] == blocks[q]);
                }
            }
        }
    }
}

proof fn lemma_block_entries(
    entries: Seq<ResultEntry>,
    calls: Seq<ToolUseModel>,
    blocks: Seq<BlockModel>,
    i: int,
    key: Seq<char>,
)
    ensures
        count_key(with_result_entries(entries, calls, blocks, i), key) == count_key(entries, key)
            + block_count(calls, blocks, key),
        latest_with_key(with_result_entries(entries, calls, blocks, i), key) == (if block_count(
            calls,
            blocks,
            key,
        ) > 0 {
            Some(i)
        } else {
            latest_with_key(entries, key)
        }),
    decreases blocks.len(),
{
    if blocks.len() > 0 {
        lemma_block_entries(entries, calls, blocks.drop_last(), i, key);
        let rest = with_result_entries(entries, calls, blocks.drop_last(), i);
        let all = with_result_entries(entries, calls, blocks, i);
        if answered_call(calls, blocks.last()) is Some {
            assert(all.drop_last() =~= rest);
        }
    }
}

proof fn lemma_count_at_least(
    messages: Seq<MessageModel>,
    calls: Seq<ToolUseModel>,
    n: int,
    key: Seq<char>,
    i: int,
    k: int,
)
    requires
        0 <= i < n <= messages.len(),
        0 <= k < messages[i].content.len(),
        keyed(calls, messages[i].content[k], key),
    ensures
        count_key(result_entries(messages, calls, n), key) >= 1,
    decreases n,
{
    let before = result_entries(messages, calls, n - 1);
    lemma_block_entries(before, calls, messages[n - 1].content, n - 1, key);
    if i == n - 1 {
        lemma_block_count(calls, messages[i].content, key, k, k);
    } else {
        lemma_count_at_least(messages, calls, n - 1, key, i, k);
    }
}

proof fn lemma_count_two(
    messages: Seq<MessageModel>,
    calls: Seq<ToolUseModel>,
    n: int,
    key: Seq<char>,
    i: int,
    k: int,
    i2: int,
    k2: int,
)
    requires
        0 <= i <= i2 < n <= messages.len(),
        0 <= k < messages[i].content.len(),
        0 <= k2 < messages[i2].content.len(),
        i == i2 ==> k < k2,
        keyed(calls, messages[i].content[k], key),
        keyed(calls, messages[i2].content[k2], key),
    ensures
        count_key(result_entries(messages, calls, n), key) >= 2,
    decreases n,
{
    let before = result_entries(messages, calls, n - 1);
    lemma_block_entries(before, calls, messages[n - 1].content, n - 1, key);
    if i2 == n - 1 {
        if i == i2 {
            lemma_block_count(calls, messages[i].content, key, k, k2);
        } else {
            lemma_count_at_least(messages, calls, n - 1, key, i, k);
            lemma_block_count(calls, messages[i2].content, key, k2, k2);
        }
    } else {
        lemma_count_two(messages, calls, n - 1, key, i, k, i2, k2);
    }
}

proof fn lemma_count_none(
    messages: Seq<MessageModel>,
    calls: Seq<ToolUseModel>,
    n: int,
    key: Seq<char>,
)
    requires
        0 <= n <= messages.len(),
        forall|q: int, r: int|
            0 <= q < n && 0 <= r < messages[q].content.len() ==> !keyed(
                calls,
                #[trigger] messages[q].content[r],
                key,
            ),
    ensures
        count_key(result_entries(messages, calls, n), key) == 0,
    decreases n,
{
    if n > 0 {
        lemma_count_none(messages, calls, n - 1, key);
        let before = result_entries(messages, calls, n - 1);
        lemma_block_entries(before, calls, messages[n - 1].content, n - 1, key);
        lemma_block_count(calls, messages[n - 1].content, key, 0, 0);
    }
}

proof fn lemma_count_one(
    messages: Seq<MessageModel>,
    calls: Seq<ToolUseModel>,
    n: int,
    key: Seq<char>,
    i: int,
    k: int,
)
    requires
        0 <= n <= messages.len(),
        forall|q: int, r: int|
            0 <= q < n && 0 <= r < messages[q].content.len() && keyed(
                calls,
                #[trigger] messages[q].content[r],
                key,
            ) ==> q == i && r == k,
    ensures
        count_key(result_entries(messages, calls, n), key) <= 1,
    decreases n,
{
    if n > 0 {
        let before = result_entries(messages, calls, n - 1);
        lemma_block_entries(before, calls, messages[n - 1].content, n - 1, key);
        if i == n - 1 {
            lemma_count_none(messages, calls, n - 1, key);
        } else {
            lemma_count_one(messages, calls, n - 1, key, i, k);
        }
        lemma_block_count(calls, messages[n - 1].content, key, k, k);
    }
}

proof fn lemma_latest(
    messages: Seq<MessageModel>,
    calls: Seq<ToolUseModel>,
    n: int,
    key: Seq<char>,
    i: int,
    k: int,
)
    requires
        0 <= i < n <= messages.len(),
        0 <= k < messages[i].content.len(),
        keyed(calls, messages[i].content[k], key),
    ensures
        latest_with_key(result_entries(messages, calls, n), key) matches Some(j) && i <= j < n,
        (forall|q: int, r: int|
            i < q < n && 0 <= r < messages[q].content.len() ==> !keyed(
                calls,
                #[trigger] messages[q].content[r],
                key,
            )) ==> latest_with_key(result_entries(messages, calls, n), key) == Some(i),
    decreases n,
{
    let before = result_entries(messages, calls, n - 1);
    let last = messages[n - 1].content;
    lemma_block_entries(before, calls, last, n - 1, key);
    if i == n - 1 {
        lemma_block_count(calls, last, key, k, k);
    } else {
        lemma_latest(messages, calls, n - 1, key, i, k);
        if (forall|q: int, r: int|
            i < q < n && 0 <= r < messages[q].content.len() ==> !keyed(
                calls,
                #[trigger] messages[q].content[r],
                key,
            )) {
            assert forall|r: int| 0 <= r < last.len() implies !keyed(calls, #[trigger] last[r], key) by {
                assert(!keyed(calls, messages[n - 1].content[r], key));
            }
            lemma_block_count(calls, last, key, 0, 0);
        }
    }
}

/// A result answers a call exactly where the call's key is found for it.
proof fn lemma_keyed(
    messages: Seq<MessageModel>,
    i: int,
    k: int,
    name: Seq<char>,
    input: Seq<char>,
)
    requires
        0 <= i < messages.len(),
        0 <= k < messages[i].content.len(),
    ensures
        answers_call(messages, i, k, name, input) == keyed(
            tool_calls(messages),
            messages[i].content[k],
            name + ":"@ + input,
        ),
{
    let calls = tool_calls(messages);
    let key = name + ":"@ + input;
    match messages[i].content[k] {
        BlockModel::ToolResult { tool_use_id, .. } => {
            if answers_call(messages, i, k, name, input) {
                let (a, b) = choose|a: int, b: int| #[trigger]
                    calls_last_at(messages, a, b, tool_use_id) && (messages[a].content[b] matches
                        BlockModel::ToolUse { name: n, input: x, .. } && n + ":"@ + json_text(x)
                        == name + ":"@ + input);
                lemma_answered(messages, a, b, tool_use_id);
            }
            if keyed(calls, messages[i].content[k], key) {
                lemma_unanswered(messages, tool_use_id);
                let (a, b) = choose|a: int, b: int| #[trigger]
                    calls_last_at(messages, a, b, tool_use_id);
                lemma_answered(messages, a, b, tool_use_id);
                assert(messages[a].content[b] is ToolUse);
                assert(answers_call(messages, i, k, name, input));
            }
        },
        _ => {},
    }
}

// ---------------------------------------------------------------------------
// Laws
// ---------------------------------------------------------------------------

/// What pruning makes of a result before the protected window. A result that
/// another one repeats gives way to a line, unless it is among the freshest;
/// one that nothing repeats gives way when it is longer than 240 bytes. No
/// result gives way to a line that is not shorter.
pub proof fn results_give_way_to_later_ones(
    messages: Seq<MessageModel>,
    window: nat,
    i: int,
    k: int,
    a: int,
    b: int,
)
    requires
        0 <= i && i + window < messages.len(),
        0 <= k < messages[i].content.len(),
        messages[i].content[k] matches BlockModel::ToolResult { tool_use_id, .. } && calls_last_at(
            messages,
            a,
            b,
            tool_use_id,
        ),
    ensures
        ({
            let before = messages[i].content[k];
            let after = pruned(messages, window)[i].content[k];
            &&& before matches BlockModel::ToolResult { tool_use_id, content, is_error, .. }
            &&& messages[a].content[b] matches BlockModel::ToolUse { name, input, .. }
            &&& {
                let args = json_text(input);
                let line = "["@ + name + "] tool result pruned ("@ + decimal(byte_len(content))
                    + " bytes; args: "@ + first_chars(args, 120) + ")"@;
                let twin = has_twin(messages, window, i, k, name, args);
                let later = is_repeated_later(messages, window, i, name, args);
                let gives_way = byte_len(line) < byte_len(content) && if twin {
                    later
                } else {
                    byte_len(content) > 240
                };
                after == (if gives_way {
                    BlockModel::ToolResult {
                        tool_use_id,
                        content: line,
                        is_error,
                        content_blocks: None,
                    }
                } else {
                    before
                })
            }
        }),
{
    let calls = tool_calls(messages);
    let cutoff = prune_cutoff(messages.len(), window);
    let block = messages[i].content[k];
    if let BlockModel::ToolResult { tool_use_id, content, .. } = block {
        lemma_answered(messages, a, b, tool_use_id);
        if let BlockModel::ToolUse { name, input, .. } = messages[a].content[b] {
            let args = json_text(input);
            let key = name + ":"@ + args;
            let entries = result_entries(messages, calls, cutoff);
            assert(keyed(calls, block, key));
            lemma_keyed(messages, i, k, name, args);
            lemma_latest(messages, calls, cutoff, key, i, k);
            if has_twin(messages, window, i, k, name, args) {
                let (i2, k2) = choose|i2: int, k2: int|
                    (i2 != i || k2 != k) && i2 + window < messages.len() && #[trigger] answers_call(
                        messages,
                        i2,
                        k2,
                        name,
                        args,
                    );
                lemma_keyed(messages, i2, k2, name, args);
                if i < i2 || (i == i2 && k < k2) {
                    lemma_count_two(messages, calls, cutoff, key, i, k, i2, k2);
                } else {
                    lemma_count_two(messages, calls, cutoff, key, i2, k2, i, k);
                }
            } else {
                assert forall|q: int, r: int|
                    0 <= q < cutoff && 0 <= r < messages[q].content.len() && keyed(
                        calls,
                        #[trigger] messages[q].content[r],
                        key,
                    ) implies q == i && r == k by {
                    lemma_keyed(messages, q, r, name, args);
                    assert(answers_call(messages, q, r, name, args));
                }
                lemma_count_one(messages, calls, cutoff, key, i, k);
            }
            if is_repeated_later(messages, window, i, name, args) {
                let (i2, k2) = choose|i2: int, k2: int|
                    i < i2 && i2 + window < messages.len() && #[trigger] answers_call(
                        messages,
                        i2,
                        k2,
                        name,
                        args,
                    );
                lemma_keyed(messages, i2, k2, name, args);
                lemma_latest(messages, calls, cutoff, key, i2, k2);
            } else {
                assert forall|q: int, r: int|
                    i < q < cutoff && 0 <= r < messages[q].content.len() implies !keyed(
                    calls,
                    #[trigger] messages[q].content[r],
                    key,
                ) by {
                    lemma_keyed(messages, q, r, name, args);
                    assert(!answers_call(messages, q, r, name, args));
                }
            }
        }
    }
}

/// The freshest copy stays whole: of several results of the same call before
/// the window, those of the last message that holds one are left as they are.
pub proof fn the_freshest_copy_stays_whole(
    messages: Seq<MessageModel>,
    window: nat,
    i: int,
    k: int,
    name: Seq<char>,
    input: Seq<char>,
)
    requires
        0 <= i && i + window < messages.len(),
        answers_call(messages, i, k, name, input),
        has_twin(messages, window, i, k, name, input),
        !is_repeated_later(messages, window, i, name, input),
    ensures
        pruned(messages, window)[i].content[k] == messages[i].content[k],
{
    if let BlockModel::ToolResult { tool_use_id, .. } = messages[i].content[k] {
        let (a, b) = choose|a: int, b: int| #[trigger]
            calls_last_at(messages, a, b, tool_use_id) && (messages[a].content[b] matches
                BlockModel::ToolUse { name: n, input: x, .. } && n + ":"@ + json_text(x) == name
                + ":"@ + input);
        results_give_way_to_later_ones(messages, window, i, k, a, b);
        if let BlockModel::ToolUse { name: n, input: x, .. } = messages[a].content[b] {
            lemma_same_twins(messages, window, i, k, n, json_text(x), name, input);
        }
    }
}

proof fn lemma_same_twins(
    messages: Seq<MessageModel>,
    window: nat,
    i: int,
    k: int,
    n: Seq<char>,
    x: Seq<char>,
    name: Seq<char>,
    input: Seq<char>,
)
    requires
        n + ":"@ + x == name + ":"@ + input,
    ensures
        has_twin(messages, window, i, k, n, x) == has_twin(messages, window, i, k, name, input),
        is_repeated_later(messages, window, i, n, x) == is_repeated_later(
            messages,
            window,
            i,
            name,
            input,
        ),
{
    assert forall|q: int, r: int| #[trigger]
        answers_call(messages, q, r, n, x) == answers_call(messages, q, r, name, input) by {}
    if has_twin(messages, window, i, k, name, input) {
        let (i2, k2) = choose|i2: int, k2: int|
            (i2 != i || k2 != k) && i2 + window < messages.len() && #[trigger] answers_call(
                messages,
                i2,
                k2,
                name,
                input,
            );
        assert(answers_call(messages, i2, k2, n, x));
    }
    if has_twin(messages, window, i, k, n, x) {
        let (i2, k2) = choose|i2: int, k2: int|
            (i2 != i || k2 != k) && i2 + window < messages.len() && #[trigger] answers_call(
                messages,
                i2,
                k2,
                n,
                x,
            );
        assert(answers_call(messages, i2, k2, name, input));
    }
    if is_repeated_later(messages, window, i, name, input) {
        let (i2, k2) = choose|i2: int, k2: int|
            i < i2 && i2 + window < messages.len() && #[trigger] answers_call(
                messages,
                i2,
                k2,
                name,
                input,
            );
        assert(answers_call(messages, i2, k2, n, x));
    }
    if is_repeated_later(messages, window, i, n, x) {
        let (i2, k2) = choose|i2: int, k2: int|
            i < i2 && i2 + window < messages.len() && #[trigger] answers_call(
                messages,
                i2,
                k2,
                n,
                x,
            );
        assert(answers_call(messages, i2, k2, name, input));
    }
}

/// A result that answers no call of the conversation stays as it is, and so
/// does every block that is no result.
pub proof fn other_blocks_stay(messages: Seq<MessageModel>, window: nat, i: int, k: int)
    requires
        0 <= i < messages.len(),
        0 <= k < messages[i].content.len(),
        messages[i].content[k] matches BlockModel::ToolResult { tool_use_id, .. } ==> forall|
            a: int,
            b: int,
        | !#[trigger] calls_at(messages, a, b, tool_use_id),
    ensures
        pruned(messages, window)[i].content[k] == messages[i].content[k],
{
    if let BlockModel::ToolResult { tool_use_id, .. } = messages[i].content[k] {
        lemma_unanswered(messages, tool_use_id);
        if last_call(tool_calls(messages), tool_use_id) is Some {
            let (a, b) = choose|a: int, b: int| #[trigger]
                calls_last_at(messages, a, b, tool_use_id);
            assert(calls_at(messages, a, b, tool_use_id));
        }
    }
}

/// Calls of one tool are the same exactly where their inputs read the same.
pub proof fn keys_tell_inputs_apart(name: Seq<char>, x: JsonModel, y: JsonModel)
    ensures
        (call_key(name, x) == call_key(name, y)) == (json_text(x) == json_text(y)),
        args_preview(x).len() <= 120,
{
    let head = name + ":"@;
    assert((head + json_text(x)).skip(head.len() as int) =~= json_text(x));
    assert((head + json_text(y)).skip(head.len() as int) =~= json_text(y));
}

/// The bytes of results count block by block: a result adds the bytes of its
/// content, and no other block adds any.
pub proof fn results_count_their_bytes(
    messages: Seq<MessageModel>,
    role: Seq<char>,
    blocks: Seq<BlockModel>,
    block: BlockModel,
)
    ensures
        ({
            let without = messages.push(MessageModel { role, content: blocks });
            let with = messages.push(MessageModel { role, content: blocks.push(block) });
            conversation_result_bytes(with) - conversation_result_bytes(without) == (match block {
                BlockModel::ToolResult { content, .. } => byte_len(content) as int,
                _ => 0,
            })
        }),
        conversation_result_bytes(messages.push(MessageModel { role, content: Seq::empty() }))
            == conversation_result_bytes(messages),
        conversation_result_bytes(Seq::empty()) == 0,
{
    let without = messages.push(MessageModel { role, content: blocks });
    let with = messages.push(MessageModel { role, content: blocks.push(block) });
    let bare = messages.push(MessageModel { role, content: Seq::empty() });
    assert(without.drop_last() =~= messages);
    assert(with.drop_last() =~= messages);
    assert(bare.drop_last() =~= messages);
    assert(blocks.push(block).drop_last() =~= blocks);
    assert(blocks_result_bytes(Seq::empty()) == 0);
}

/// Pruning alone is enough exactly where it changes a conversation that is due
/// into one that is not.
pub proof fn pruning_is_enough_where_it_ends_the_need(
    messages: Seq<MessageModel>,
    config: CompactionConfig,
    workspace: Option<&Workspace>,
    pins: Seq<usize>,
    paths: Seq<Seq<char>>,
)
    ensures
        pruning_suffices(messages, config, workspace, pins, paths) == (compaction_due(
            messages,
            config,
            workspace,
            pins,
            paths,
        ) && !compaction_due(pruned(messages, 4), config, workspace, pins, paths)),
{
    pruning_saves_where_it_changes(messages, 4);
}

} // verus!
