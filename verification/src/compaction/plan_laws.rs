//! Which messages a plan keeps, told from what the messages hold.

use vstd::prelude::*;

use crate::compaction::extraction::{
    block_paths, blocks_paths, captured_paths, message_paths, named_captures, text_paths,
    tool_input_paths, with_candidate, with_new, with_path_field, with_path_items, with_path_list,
    PATH_PATTERN,
};
use crate::compaction::pairing::{
    block_matches, blocks_links, complete_conversations_keep_pins, conversation_links,
    initial_state, is_complete, is_needed, is_orphaned, last_match, links_to, message_matches,
    paired_pins, plain_pins_are_kept, repair_limit, repair_settles, repair_step, repaired,
    settled_pins_are_paired, PairState,
};
use crate::compaction::planning::{
    block_text, blocks_text, collect_new, is_pin_worthy, mentions_path, own_pins, plan_paths,
    plan_pins, recent_paths, seed_paths, with_normalized, working_set,
};
use crate::compaction::request_laws::{lemma_contains_in_part, lemma_contains_middle};
use crate::json::{json_get, json_str, json_str_field, json_text, JsonModel};
use crate::models::{BlockModel, MessageModel};
use crate::paths::{workspace_path, Workspace};
use crate::text::{contains_text, unicode_lowercase};

verus! {

// ---------------------------------------------------------------------------
// What a message says
// ---------------------------------------------------------------------------

/// What a block says to a reader: its text, the content of a result, or the
/// name and input of a call.
pub open spec fn said_by(block: BlockModel) -> Option<Seq<char>> {
    match block {
        BlockModel::Text { text, .. } => Some(text),
        BlockModel::ToolResult { content, .. } => Some(content),
        BlockModel::ToolUse { name, input, .. } => Some(
            "[tool_use:"@ + name + "] "@ + json_text(input),
        ),
        _ => None,
    }
}

proof fn lemma_text_split(blocks: Seq<BlockModel>, k: int) -> (parts: (Seq<char>, Seq<char>))
    requires
        0 <= k < blocks.len(),
    ensures
        blocks_text(blocks) == parts.0 + block_text(blocks[k]) + parts.1,
    decreases blocks.len(),
{
    if k == blocks.len() - 1 {
        let before = blocks_text(blocks.drop_last());
        assert(blocks_text(blocks) =~= before + block_text(blocks[k]) + Seq::<char>::empty());
        (before, Seq::empty())
    } else {
        let parts = lemma_text_split(blocks.drop_last(), k);
        let behind = parts.1 + block_text(blocks.last());
        assert(blocks_text(blocks) =~= parts.0 + block_text(blocks[k]) + behind);
        (parts.0, behind)
    }
}

proof fn lemma_said(blocks: Seq<BlockModel>, k: int) -> (parts: (Seq<char>, Seq<char>))
    requires
        0 <= k < blocks.len(),
        said_by(blocks[k]) is Some,
    ensures
        blocks_text(blocks) == parts.0 + said_by(blocks[k])->0 + parts.1,
{
    let parts = lemma_text_split(blocks, k);
    let said = said_by(blocks[k])->0;
    let behind = "\n"@ + parts.1;
    assert(block_text(blocks[k]) =~= said + "\n"@);
    assert(blocks_text(blocks) =~= parts.0 + said + behind);
    (parts.0, behind)
}

/// The text of a message holds what each of its blocks says, in order.
pub proof fn message_text_holds_every_block(blocks: Seq<BlockModel>, j: int, k: int)
    requires
        0 <= j < k < blocks.len(),
        said_by(blocks[j]) is Some,
        said_by(blocks[k]) is Some,
    ensures
        contains_text(blocks_text(blocks), said_by(blocks[j])->0),
        contains_text(blocks_text(blocks), said_by(blocks[k])->0),
        exists|a: Seq<char>, b: Seq<char>, c: Seq<char>|
            blocks_text(blocks) == #[trigger] (a + said_by(blocks[j])->0 + b + said_by(
                blocks[k],
            )->0 + c),
{
    let x = said_by(blocks[j])->0;
    let y = said_by(blocks[k])->0;
    let p = lemma_said(blocks, j);
    lemma_contains_middle(p.0, x, p.1);
    let q = lemma_said(blocks, k);
    lemma_contains_middle(q.0, y, q.1);
    let front = blocks.take(k);
    let r = lemma_said(front, j);
    lemma_text_prefix(blocks, k);
    let rest = choose|rest: Seq<char>| blocks_text(blocks) == blocks_text(front) + y + rest;
    assert(blocks_text(blocks) =~= r.0 + x + r.1 + y + rest);
}

proof fn lemma_text_prefix(blocks: Seq<BlockModel>, k: int)
    requires
        0 <= k < blocks.len(),
        said_by(blocks[k]) is Some,
    ensures
        exists|rest: Seq<char>|
            blocks_text(blocks) == blocks_text(blocks.take(k)) + said_by(blocks[k])->0 + rest,
    decreases blocks.len(),
{
    let said = said_by(blocks[k])->0;
    if k == blocks.len() - 1 {
        assert(blocks.take(k) =~= blocks.drop_last());
        assert(block_text(blocks[k]) =~= said + "\n"@);
        assert(blocks_text(blocks) =~= blocks_text(blocks.take(k)) + said + "\n"@);
    } else {
        let front = blocks.drop_last();
        lemma_text_prefix(front, k);
        assert(front.take(k) =~= blocks.take(k));
        let rest = choose|rest: Seq<char>|
            blocks_text(front) == blocks_text(front.take(k)) + said + rest;
        let more = rest + block_text(blocks.last());
        assert(blocks_text(blocks) =~= blocks_text(blocks.take(k)) + said + more);
    }
}

/// Reasoning is not read: it does not change the text of a message.
pub proof fn reasoning_is_not_read(blocks: Seq<BlockModel>, block: BlockModel)
    requires
        said_by(block) is None,
    ensures
        blocks_text(blocks.push(block)) == blocks_text(blocks),
{
    assert(blocks.push(block).drop_last() =~= blocks);
    assert(blocks_text(blocks.push(block)) =~= blocks_text(blocks));
}

// ---------------------------------------------------------------------------
// Markers
// ---------------------------------------------------------------------------

/// What tells that a message reports a failure or holds a patch.
pub open spec fn is_marker(marker: Seq<char>) -> bool {
    ||| marker == "error:"@
    ||| marker == "error "@
    ||| marker == "failed"@
    ||| marker == "panic"@
    ||| marker == "traceback"@
    ||| marker == "stack trace"@
    ||| marker == "assertion failed"@
    ||| marker == "test failed"@
    ||| marker == "diff --git"@
    ||| marker == "+++ b/"@
    ||| marker == "--- a/"@
    ||| marker == "*** begin patch"@
    ||| marker == "*** update file:"@
    ||| marker == "*** add file:"@
    ||| marker == "*** delete file:"@
    ||| marker == "```diff"@
    ||| marker == "apply_patch"@
}

/// A marker shows in a lowercased text wherever it shows in a lowercased part
/// of it. This is so of markers whose letters have one lowercase form.
pub open spec fn shows_in_lower_case(marker: Seq<char>) -> bool {
    forall|a: Seq<char>, b: Seq<char>, c: Seq<char>|
        contains_text(unicode_lowercase(b), marker) ==> contains_text(
            #[trigger] unicode_lowercase(a + b + c),
            marker,
        )
}

/// A text is worth keeping exactly where it holds a path of the working set, or
/// its lowercase form a marker.
pub proof fn markers_and_paths_are_worth_keeping(
    text: Seq<char>,
    paths: Seq<Seq<char>>,
    marker: Seq<char>,
    k: int,
)
    ensures
        is_marker(marker) && contains_text(unicode_lowercase(text), marker) ==> is_pin_worthy(
            text,
            paths,
        ),
        0 <= k < paths.len() && contains_text(text, paths[k]) ==> is_pin_worthy(text, paths),
        (forall|m: Seq<char>| is_marker(m) ==> !contains_text(unicode_lowercase(text), m)) && (
        forall|p: int| 0 <= p < paths.len() ==> !contains_text(text, #[trigger] paths[p]))
            ==> !is_pin_worthy(text, paths),
{
    if forall|m: Seq<char>| is_marker(m) ==> !contains_text(unicode_lowercase(text), m) {
        assert(is_marker("error:"@));
        assert(is_marker("error "@));
        assert(is_marker("failed"@));
        assert(is_marker("panic"@));
        assert(is_marker("traceback"@));
        assert(is_marker("stack trace"@));
        assert(is_marker("assertion failed"@));
        assert(is_marker("test failed"@));
        assert(is_marker("diff --git"@));
        assert(is_marker("+++ b/"@));
        assert(is_marker("--- a/"@));
        assert(is_marker("*** begin patch"@));
        assert(is_marker("*** update file:"@));
        assert(is_marker("*** add file:"@));
        assert(is_marker("*** delete file:"@));
        assert(is_marker("```diff"@));
        assert(is_marker("apply_patch"@));
    }
}

// ---------------------------------------------------------------------------
// Calls and results
// ---------------------------------------------------------------------------

/// A message calls a tool under this identifier.
pub open spec fn holds_call(message: MessageModel, id: Seq<char>) -> bool {
    exists|k: int|
        0 <= k < message.content.len() && (#[trigger] message.content[k] matches
            BlockModel::ToolUse { id: i, .. } && i == id)
}

/// A message holds a result under this identifier.
pub open spec fn holds_result(message: MessageModel, id: Seq<char>) -> bool {
    exists|k: int|
        0 <= k < message.content.len() && (#[trigger] message.content[k] matches
            BlockModel::ToolResult { tool_use_id, .. } && tool_use_id == id)
}

/// A message of the conversation calls a tool under this identifier.
pub open spec fn is_called(messages: Seq<MessageModel>, id: Seq<char>) -> bool {
    exists|j: int| 0 <= j < messages.len() && #[trigger] holds_call(messages[j], id)
}

/// A message of the conversation holds a result under this identifier.
pub open spec fn is_answered(messages: Seq<MessageModel>, id: Seq<char>) -> bool {
    exists|j: int| 0 <= j < messages.len() && #[trigger] holds_result(messages[j], id)
}

/// Every call of the conversation is answered, and every result was asked for.
pub open spec fn calls_are_answered(messages: Seq<MessageModel>) -> bool {
    &&& forall|i: int, id: Seq<char>|
        0 <= i < messages.len() && #[trigger] holds_call(messages[i], id) ==> is_answered(
            messages,
            id,
        )
    &&& forall|i: int, id: Seq<char>|
        0 <= i < messages.len() && #[trigger] holds_result(messages[i], id) ==> is_called(
            messages,
            id,
        )
}

proof fn lemma_matches_hold(message: MessageModel, id: Seq<char>)
    ensures
        message_matches(message, id, true) == holds_call(message, id),
        message_matches(message, id, false) == holds_result(message, id),
{
    if holds_call(message, id) {
        let k = choose|k: int|
            0 <= k < message.content.len() && (#[trigger] message.content[k] matches
                BlockModel::ToolUse { id: i, .. } && i == id);
        assert(block_matches(message.content[k], id, true));
    }
    if holds_result(message, id) {
        let k = choose|k: int|
            0 <= k < message.content.len() && (#[trigger] message.content[k] matches
                BlockModel::ToolResult { tool_use_id, .. } && tool_use_id == id);
        assert(block_matches(message.content[k], id, false));
    }
}

proof fn lemma_last_match(messages: Seq<MessageModel>, id: Seq<char>, call: bool, n: int, j: int)
    requires
        0 <= n <= messages.len(),
    ensures
        last_match(messages, id, call, n) matches Some(i) ==> 0 <= i < n && message_matches(
            messages[i],
            id,
            call,
        ),
        0 <= j < n && message_matches(messages[j], id, call) ==> last_match(messages, id, call, n)
            is Some,
    decreases n,
{
    if n > 0 && !message_matches(messages[n - 1], id, call) {
        lemma_last_match(messages, id, call, n - 1, j);
    }
}

/// The link of a block that calls or answers.
spec fn link_of(messages: Seq<MessageModel>, block: BlockModel) -> Option<int> {
    match block {
        BlockModel::ToolUse { id, .. } => last_match(messages, id, false, messages.len() as int),
        BlockModel::ToolResult { tool_use_id, .. } => last_match(
            messages,
            tool_use_id,
            true,
            messages.len() as int,
        ),
        _ => None,
    }
}

spec fn is_tool_block(block: BlockModel) -> bool {
    block is ToolUse || block is ToolResult
}

proof fn lemma_link_of_block(messages: Seq<MessageModel>, blocks: Seq<BlockModel>, k: int)
    requires
        0 <= k < blocks.len(),
        is_tool_block(blocks[k]),
    ensures
        exists|q: int|
            0 <= q < blocks_links(messages, blocks).len() && #[trigger] blocks_links(
                messages,
                blocks,
            )[q] == link_of(messages, blocks[k]),
    decreases blocks.len(),
{
    let front = blocks.drop_last();
    let rest = blocks_links(messages, front);
    let all = blocks_links(messages, blocks);
    if k == blocks.len() - 1 {
        assert(all[all.len() - 1] == link_of(messages, blocks[k]));
    } else {
        lemma_link_of_block(messages, front, k);
        let q = choose|q: int| 0 <= q < rest.len() && #[trigger] rest[q] == link_of(
            messages,
            front[k],
        );
        assert(all[q] == rest[q]);
    }
}

proof fn lemma_block_of_link(messages: Seq<MessageModel>, blocks: Seq<BlockModel>, q: int)
    requires
        0 <= q < blocks_links(messages, blocks).len(),
    ensures
        exists|k: int|
            0 <= k < blocks.len() && is_tool_block(#[trigger] blocks[k]) && blocks_links(
                messages,
                blocks,
            )[q] == link_of(messages, blocks[k]),
    decreases blocks.len(),
{
    if blocks.len() > 0 {
        let front = blocks.drop_last();
        let rest = blocks_links(messages, front);
        if q < rest.len() {
            lemma_block_of_link(messages, front, q);
            let k = choose|k: int|
                0 <= k < front.len() && is_tool_block(#[trigger] front[k]) && rest[q] == link_of(
                    messages,
                    front[k],
                );
            assert(blocks[k] == front[k]);
            assert(is_tool_block(blocks[k]));
        } else {
            assert(is_tool_block(blocks[blocks.len() - 1]));
        }
    }
}

proof fn lemma_block_is_held(message: MessageModel, k: int)
    requires
        0 <= k < message.content.len(),
    ensures
        message.content[k] matches BlockModel::ToolUse { id, .. } ==> holds_call(message, id),
        message.content[k] matches BlockModel::ToolResult { tool_use_id, .. } ==> holds_result(
            message,
            tool_use_id,
        ),
{
}

proof fn lemma_answered_is_complete(messages: Seq<MessageModel>)
    requires
        calls_are_answered(messages),
    ensures
        is_complete(messages),
{
    let links = conversation_links(messages);
    let n = messages.len() as int;
    assert forall|i: int, q: int| 0 <= i < links.len() && 0 <= q < links[i].len() implies
        #[trigger] links[i][q] is Some by {
        let m = messages[i];
        assert(links[i] == blocks_links(messages, m.content));
        lemma_block_of_link(messages, m.content, q);
        let k = choose|k: int|
            0 <= k < m.content.len() && is_tool_block(#[trigger] m.content[k]) && links[i][q]
                == link_of(messages, m.content[k]);
        lemma_block_is_held(m, k);
        match m.content[k] {
            BlockModel::ToolUse { id, .. } => {
                assert(is_answered(messages, id));
                let j = choose|j: int| 0 <= j < n && #[trigger] holds_result(messages[j], id);
                lemma_matches_hold(messages[j], id);
                lemma_last_match(messages, id, false, n, j);
            },
            BlockModel::ToolResult { tool_use_id, .. } => {
                assert(is_called(messages, tool_use_id));
                let j = choose|j: int| 0 <= j < n && #[trigger] holds_call(
                    messages[j],
                    tool_use_id,
                );
                lemma_matches_hold(messages[j], tool_use_id);
                lemma_last_match(messages, tool_use_id, true, n, j);
            },
            _ => {},
        }
    }
}

/// Where the repair settles, a kept result has a kept call, and a kept call a
/// kept result.
pub proof fn kept_calls_and_results_come_together(
    messages: Seq<MessageModel>,
    pinned: Set<int>,
    i: int,
    id: Seq<char>,
)
    requires
        repair_settles(messages, pinned),
        0 <= i < messages.len(),
        paired_pins(messages, pinned).contains(i),
    ensures
        holds_result(messages[i], id) ==> exists|j: int|
            0 <= j < messages.len() && paired_pins(messages, pinned).contains(j)
                && #[trigger] holds_call(messages[j], id),
        holds_call(messages[i], id) ==> exists|j: int|
            0 <= j < messages.len() && paired_pins(messages, pinned).contains(j)
                && #[trigger] holds_result(messages[j], id),
{
    settled_pins_are_paired(messages, pinned);
    let kept = paired_pins(messages, pinned);
    let links = conversation_links(messages);
    let m = messages[i];
    let n = messages.len() as int;
    assert(links[i] == blocks_links(messages, m.content));
    if holds_result(m, id) {
        let k = choose|k: int|
            0 <= k < m.content.len() && (#[trigger] m.content[k] matches BlockModel::ToolResult {
                tool_use_id,
                ..
            } && tool_use_id == id);
        lemma_link_of_block(messages, m.content, k);
        let q = choose|q: int|
            0 <= q < links[i].len() && #[trigger] blocks_links(messages, m.content)[q] == link_of(
                messages,
                m.content[k],
            );
        assert(links[i][q] matches Some(j) && kept.contains(j));
        let j = links[i][q]->0;
        lemma_last_match(messages, id, true, n, 0);
        lemma_matches_hold(messages[j], id);
        assert(holds_call(messages[j], id));
    }
    if holds_call(m, id) {
        let k = choose|k: int|
            0 <= k < m.content.len() && (#[trigger] m.content[k] matches BlockModel::ToolUse {
                id: x,
                ..
            } && x == id);
        lemma_link_of_block(messages, m.content, k);
        let q = choose|q: int|
            0 <= q < links[i].len() && #[trigger] blocks_links(messages, m.content)[q] == link_of(
                messages,
                m.content[k],
            );
        assert(links[i][q] matches Some(j) && kept.contains(j));
        let j = links[i][q]->0;
        lemma_last_match(messages, id, false, n, 0);
        lemma_matches_hold(messages[j], id);
        assert(holds_result(messages[j], id));
    }
}

/// A set of messages holds the counterparts of its calls and results.
pub open spec fn holds_counterparts(messages: Seq<MessageModel>, set: Set<int>) -> bool {
    &&& forall|i: int, j: int, id: Seq<char>|
        0 <= i < messages.len() && 0 <= j < messages.len() && set.contains(i)
            && #[trigger] holds_call(messages[i], id) && #[trigger] holds_result(messages[j], id)
            ==> set.contains(j)
    &&& forall|i: int, j: int, id: Seq<char>|
        0 <= i < messages.len() && 0 <= j < messages.len() && set.contains(i)
            && #[trigger] holds_result(messages[i], id) && #[trigger] holds_call(messages[j], id)
            ==> set.contains(j)
}

/// Nothing is kept without need: whatever holds the pinned messages and the
/// counterparts of its own calls and results holds all that is kept.
pub proof fn only_counterparts_are_added(
    messages: Seq<MessageModel>,
    pinned: Set<int>,
    set: Set<int>,
)
    requires
        pinned.subset_of(set),
        holds_counterparts(messages, set),
    ensures
        paired_pins(messages, pinned).subset_of(set),
{
    lemma_stays_within(
        messages,
        initial_state(pinned),
        repair_limit(messages.len()),
        set,
    );
}

proof fn lemma_stays_within(
    messages: Seq<MessageModel>,
    state: PairState,
    steps: nat,
    set: Set<int>,
)
    requires
        state.pinned.subset_of(set),
        holds_counterparts(messages, set),
    ensures
        repaired(conversation_links(messages), state, steps).pinned.subset_of(set),
    decreases steps,
{
    let links = conversation_links(messages);
    let n = messages.len() as int;
    if steps > 0 {
        let next = repair_step(links, state);
        assert forall|j: int| next.pinned.contains(j) implies set.contains(j) by {
            if !state.pinned.contains(j) {
                assert(is_needed(links, state, j));
                let i = choose|i: int|
                    0 <= i < links.len() && state.pinned.contains(i) && #[trigger] links_to(
                        links,
                        i,
                        j,
                    );
                let q = choose|q: int| 0 <= q < links[i].len() && #[trigger] links[i][q] == Some(j);
                let m = messages[i];
                assert(links[i] == blocks_links(messages, m.content));
                lemma_block_of_link(messages, m.content, q);
                let k = choose|k: int|
                    0 <= k < m.content.len() && is_tool_block(#[trigger] m.content[k])
                        && links[i][q] == link_of(messages, m.content[k]);
                lemma_block_is_held(m, k);
                match m.content[k] {
                    BlockModel::ToolUse { id, .. } => {
                        lemma_last_match(messages, id, false, n, 0);
                        lemma_matches_hold(messages[j], id);
                        assert(holds_call(messages[i], id) && holds_result(messages[j], id));
                    },
                    BlockModel::ToolResult { tool_use_id, .. } => {
                        lemma_last_match(messages, tool_use_id, true, n, 0);
                        lemma_matches_hold(messages[j], tool_use_id);
                        assert(holds_result(messages[i], tool_use_id) && holds_call(
                            messages[j],
                            tool_use_id,
                        ));
                    },
                    _ => {},
                }
            }
        }
        lemma_stays_within(messages, next, (steps - 1) as nat, set);
    }
}

/// A group of messages stands on its own: each call in it is answered and each
/// result was asked for, and whoever answers or asks belongs to it too.
pub open spec fn stands_on_its_own(messages: Seq<MessageModel>, set: Set<int>) -> bool {
    &&& holds_counterparts(messages, set)
    &&& forall|i: int, id: Seq<char>|
        0 <= i < messages.len() && set.contains(i) && #[trigger] holds_call(messages[i], id)
            ==> is_answered(messages, id)
    &&& forall|i: int, id: Seq<char>|
        0 <= i < messages.len() && set.contains(i) && #[trigger] holds_result(messages[i], id)
            ==> is_called(messages, id)
}

proof fn lemma_links_stay_inside(messages: Seq<MessageModel>, set: Set<int>, i: int, q: int)
    requires
        stands_on_its_own(messages, set),
        0 <= i < messages.len(),
        set.contains(i),
        0 <= q < conversation_links(messages)[i].len(),
    ensures
        conversation_links(messages)[i][q] matches Some(j) && 0 <= j < messages.len()
            && set.contains(j),
{
    let links = conversation_links(messages);
    let n = messages.len() as int;
    let m = messages[i];
    assert(links[i] == blocks_links(messages, m.content));
    lemma_block_of_link(messages, m.content, q);
    let k = choose|k: int|
        0 <= k < m.content.len() && is_tool_block(#[trigger] m.content[k]) && links[i][q]
            == link_of(messages, m.content[k]);
    lemma_block_is_held(m, k);
    match m.content[k] {
        BlockModel::ToolUse { id, .. } => {
            assert(is_answered(messages, id));
            let w = choose|w: int| 0 <= w < n && #[trigger] holds_result(messages[w], id);
            lemma_matches_hold(messages[w], id);
            lemma_last_match(messages, id, false, n, w);
            let j = links[i][q]->0;
            lemma_matches_hold(messages[j], id);
            assert(holds_call(messages[i], id) && holds_result(messages[j], id));
        },
        BlockModel::ToolResult { tool_use_id, .. } => {
            assert(is_called(messages, tool_use_id));
            let w = choose|w: int| 0 <= w < n && #[trigger] holds_call(messages[w], tool_use_id);
            lemma_matches_hold(messages[w], tool_use_id);
            lemma_last_match(messages, tool_use_id, true, n, w);
            let j = links[i][q]->0;
            lemma_matches_hold(messages[j], tool_use_id);
            assert(holds_result(messages[i], tool_use_id) && holds_call(messages[j], tool_use_id));
        },
        _ => {},
    }
}

proof fn lemma_group_step(messages: Seq<MessageModel>, state: PairState, set: Set<int>)
    requires
        stands_on_its_own(messages, set),
        state.dropped.disjoint(set),
    ensures
        repair_step(conversation_links(messages), state).dropped.disjoint(set),
        forall|i: int|
            0 <= i < messages.len() && state.pinned.contains(i) && set.contains(i)
                ==> #[trigger] repair_step(conversation_links(messages), state).pinned.contains(i),
{
    let links = conversation_links(messages);
    assert forall|i: int| 0 <= i < messages.len() && set.contains(i) implies !is_orphaned(
        links,
        state.dropped,
        i,
    ) by {
        if is_orphaned(links, state.dropped, i) {
            let q = choose|q: int|
                0 <= q < links[i].len() && (match #[trigger] links[i][q] {
                    Some(j) => state.dropped.contains(j),
                    None => true,
                });
            lemma_links_stay_inside(messages, set, i, q);
        }
    }
    assert(repair_step(links, state).dropped.disjoint(set)) by {
        assert forall|i: int| repair_step(links, state).dropped.contains(i) implies !set.contains(
            i,
        ) by {
            if !state.dropped.contains(i) {
                assert(is_orphaned(links, state.dropped, i));
            }
        }
    }
}

proof fn lemma_group_stays(
    messages: Seq<MessageModel>,
    state: PairState,
    steps: nat,
    set: Set<int>,
    i: int,
)
    requires
        stands_on_its_own(messages, set),
        state.dropped.disjoint(set),
        0 <= i < messages.len(),
        state.pinned.contains(i),
        set.contains(i),
    ensures
        repaired(conversation_links(messages), state, steps).pinned.contains(i),
    decreases steps,
{
    if steps > 0 {
        lemma_group_step(messages, state, set);
        let next = repair_step(conversation_links(messages), state);
        assert(next.pinned.contains(i));
        lemma_group_stays(messages, next, (steps - 1) as nat, set, i);
    }
}

/// What stands on its own is kept, whatever is missing elsewhere in the
/// conversation.
pub proof fn groups_on_their_own_are_kept(
    messages: Seq<MessageModel>,
    pinned: Set<int>,
    set: Set<int>,
    i: int,
)
    requires
        stands_on_its_own(messages, set),
        0 <= i < messages.len(),
        pinned.contains(i),
        set.contains(i),
    ensures
        paired_pins(messages, pinned).contains(i),
{
    lemma_group_stays(messages, initial_state(pinned), repair_limit(messages.len()), set, i);
}

/// A kept call of such a group brings the last message with its result along,
/// and a kept result the last message with its call.
pub proof fn counterparts_are_brought_along(
    messages: Seq<MessageModel>,
    pinned: Set<int>,
    set: Set<int>,
    i: int,
    j: int,
    id: Seq<char>,
)
    requires
        stands_on_its_own(messages, set),
        0 <= i < messages.len(),
        0 <= j < messages.len(),
        pinned.contains(i),
        set.contains(i),
        (holds_call(messages[i], id) && holds_result(messages[j], id) && forall|q: int|
            j < q < messages.len() ==> !holds_result(#[trigger] messages[q], id)) || (holds_result(
            messages[i],
            id,
        ) && holds_call(messages[j], id) && forall|q: int|
            j < q < messages.len() ==> !holds_call(#[trigger] messages[q], id)),
    ensures
        paired_pins(messages, pinned).contains(j),
{
    let links = conversation_links(messages);
    let n = messages.len() as int;
    let start = initial_state(pinned);
    let m = messages[i];
    let call = !(holds_call(m, id) && holds_result(messages[j], id) && forall|q: int|
        j < q < messages.len() ==> !holds_result(#[trigger] messages[q], id));
    lemma_matches_hold(messages[j], id);
    lemma_last_is(messages, id, call, n, j);
    let k = if call {
        choose|k: int|
            0 <= k < m.content.len() && (#[trigger] m.content[k] matches BlockModel::ToolResult {
                tool_use_id,
                ..
            } && tool_use_id == id)
    } else {
        choose|k: int|
            0 <= k < m.content.len() && (#[trigger] m.content[k] matches BlockModel::ToolUse {
                id: x,
                ..
            } && x == id)
    };
    lemma_link_of_block(messages, m.content, k);
    assert(links[i] == blocks_links(messages, m.content));
    let q = choose|q: int|
        0 <= q < links[i].len() && #[trigger] blocks_links(messages, m.content)[q] == link_of(
            messages,
            m.content[k],
        );
    assert(links[i][q] == Some(j));
    assert(links_to(links, i, j));
    assert(is_needed(links, start, j));
    lemma_links_stay_inside(messages, set, i, q);
    let both = PairState { pinned: pinned.insert(j), dropped: Set::empty() };
    lemma_group_step(messages, both, set);
    lemma_group_step(messages, start, set);
    let next = repair_step(links, start);
    assert(!is_orphaned(links, start.dropped, j)) by {
        if is_orphaned(links, start.dropped, j) {
            let w = choose|w: int|
                0 <= w < links[j].len() && (match #[trigger] links[j][w] {
                    Some(x) => start.dropped.contains(x),
                    None => true,
                });
            lemma_links_stay_inside(messages, set, j, w);
        }
    }
    assert(next.pinned.contains(j));
    let limit = repair_limit(messages.len());
    lemma_group_stays(messages, next, (limit - 1) as nat, set, j);
}

proof fn lemma_last_is(messages: Seq<MessageModel>, id: Seq<char>, call: bool, n: int, j: int)
    requires
        0 <= j < n <= messages.len(),
        message_matches(messages[j], id, call),
        forall|q: int|
            j < q < n ==> (if call {
                !holds_call(#[trigger] messages[q], id)
            } else {
                !holds_result(messages[q], id)
            }),
    ensures
        last_match(messages, id, call, n) == Some(j),
    decreases n,
{
    if j < n - 1 {
        lemma_matches_hold(messages[n - 1], id);
        lemma_last_is(messages, id, call, n - 1, j);
    }
}

/// A pinned message with a call that nothing answers, or with a result that
/// nothing asked for, is not kept.
pub proof fn orphans_are_not_kept(
    messages: Seq<MessageModel>,
    pinned: Set<int>,
    i: int,
    id: Seq<char>,
)
    requires
        0 <= i < messages.len(),
        pinned.contains(i),
        (holds_call(messages[i], id) && !is_answered(messages, id)) || (holds_result(
            messages[i],
            id,
        ) && !is_called(messages, id)),
    ensures
        !paired_pins(messages, pinned).contains(i),
{
    let links = conversation_links(messages);
    let n = messages.len() as int;
    let m = messages[i];
    let call = !(holds_call(m, id) && !is_answered(messages, id));
    let k = if call {
        choose|k: int|
            0 <= k < m.content.len() && (#[trigger] m.content[k] matches BlockModel::ToolResult {
                tool_use_id,
                ..
            } && tool_use_id == id)
    } else {
        choose|k: int|
            0 <= k < m.content.len() && (#[trigger] m.content[k] matches BlockModel::ToolUse {
                id: x,
                ..
            } && x == id)
    };
    lemma_link_of_block(messages, m.content, k);
    assert(links[i] == blocks_links(messages, m.content));
    let q = choose|q: int|
        0 <= q < links[i].len() && #[trigger] blocks_links(messages, m.content)[q] == link_of(
            messages,
            m.content[k],
        );
    lemma_last_match(messages, id, call, n, 0);
    if let Some(j) = last_match(messages, id, call, n) {
        lemma_matches_hold(messages[j], id);
        assert(holds_call(messages[j], id) || holds_result(messages[j], id));
    }
    assert(links[i][q] is None);
    let start = initial_state(pinned);
    assert(is_orphaned(links, start.dropped, i));
    let next = repair_step(links, start);
    assert(next.dropped.contains(i) && !next.pinned.contains(i));
    lemma_dropped_for_good(links, next, (repair_limit(messages.len()) - 1) as nat, i);
}

/// Only messages of the conversation are kept.
pub proof fn only_messages_are_kept(messages: Seq<MessageModel>, pinned: Set<int>, i: int)
    requires
        paired_pins(messages, pinned).contains(i),
    ensures
        0 <= i < messages.len(),
{
    let links = conversation_links(messages);
    let start = initial_state(pinned);
    lemma_within(
        links,
        repair_step(links, start),
        (repair_limit(messages.len()) - 1) as nat,
        i,
    );
}

proof fn lemma_within(links: Seq<Seq<Option<int>>>, state: PairState, steps: nat, i: int)
    requires
        forall|j: int| #[trigger] state.pinned.contains(j) ==> 0 <= j < links.len(),
        repaired(links, state, steps).pinned.contains(i),
    ensures
        0 <= i < links.len(),
    decreases steps,
{
    if steps > 0 {
        lemma_within(links, repair_step(links, state), (steps - 1) as nat, i);
    }
}

/// The repair makes as many steps as there are messages, and at least ten.
pub proof fn repairs_are_long_enough(n: nat)
    ensures
        repair_limit(n) >= n,
        repair_limit(n) >= 10,
        n >= 10 ==> repair_limit(n) == n,
        n <= 10 ==> repair_limit(n) == 10,
{
}

proof fn lemma_dropped_for_good(
    links: Seq<Seq<Option<int>>>,
    state: PairState,
    steps: nat,
    i: int,
)
    requires
        state.dropped.contains(i),
        !state.pinned.contains(i),
    ensures
        !repaired(links, state, steps).pinned.contains(i),
    decreases steps,
{
    if steps > 0 {
        lemma_dropped_for_good(links, repair_step(links, state), (steps - 1) as nat, i);
    }
}

// ---------------------------------------------------------------------------
// Plans
// ---------------------------------------------------------------------------

/// In a conversation whose calls are answered, a plan keeps the latest messages
/// and those that the caller pins.
pub proof fn recent_and_pinned_messages_are_kept(
    messages: Seq<MessageModel>,
    workspace: Option<&Workspace>,
    keep_recent: int,
    pins: Seq<usize>,
    paths: Seq<Seq<char>>,
    i: int,
)
    requires
        calls_are_answered(messages),
        0 <= i < messages.len() <= usize::MAX,
        i + keep_recent >= messages.len() || pins.contains(i as usize),
    ensures
        plan_pins(messages, workspace, keep_recent, pins, paths).contains(i),
{
    lemma_answered_is_complete(messages);
    let own = own_pins(messages, workspace, keep_recent, pins, paths);
    complete_conversations_keep_pins(messages, own);
    assert(own.contains(i));
}

/// In a conversation whose calls are answered, a plan keeps every message one of
/// whose blocks reports a failure, holds a patch, or names a path of the working
/// set: a text, the content of a tool result, or a call.
pub proof fn telling_messages_are_kept(
    messages: Seq<MessageModel>,
    workspace: Option<&Workspace>,
    keep_recent: int,
    pins: Seq<usize>,
    paths: Seq<Seq<char>>,
    i: int,
    k: int,
    said: Seq<char>,
    marker: Seq<char>,
)
    requires
        calls_are_answered(messages),
        0 <= i < messages.len(),
        0 <= k < messages[i].content.len(),
        match messages[i].content[k] {
            BlockModel::Text { text, .. } => said == text,
            BlockModel::ToolResult { content, .. } => said == content,
            BlockModel::ToolUse { name, input, .. } => said == "[tool_use:"@ + name + "] "@
                + json_text(input),
            _ => false,
        },
        (is_marker(marker) && shows_in_lower_case(marker) && contains_text(
            unicode_lowercase(said),
            marker,
        )) || (exists|p: int|
            0 <= p < plan_paths(messages, workspace, pins, paths).len() && contains_text(
                said,
                #[trigger] plan_paths(messages, workspace, pins, paths)[p],
            )),
    ensures
        plan_pins(messages, workspace, keep_recent, pins, paths).contains(i),
{
    let content = messages[i].content;
    let set = plan_paths(messages, workspace, pins, paths);
    let parts = lemma_said(content, k);
    let text = blocks_text(content);
    assert(text == parts.0 + said + parts.1);
    if exists|p: int| 0 <= p < set.len() && contains_text(said, #[trigger] set[p]) {
        let p = choose|p: int| 0 <= p < set.len() && contains_text(said, #[trigger] set[p]);
        lemma_contains_in_part(parts.0, said, parts.1, set[p]);
        assert(mentions_path(text, set));
    } else {
        assert(contains_text(unicode_lowercase(parts.0 + said + parts.1), marker));
        markers_and_paths_are_worth_keeping(text, set, marker, 0);
    }
    assert(is_pin_worthy(text, set));
    lemma_answered_is_complete(messages);
    let own = own_pins(messages, workspace, keep_recent, pins, paths);
    assert(own.contains(i));
    complete_conversations_keep_pins(messages, own);
}

/// A message of plain text that is neither recent nor pinned, and that holds no
/// marker and no path of the working set, is summarized.
pub proof fn other_texts_are_summarized(
    messages: Seq<MessageModel>,
    workspace: Option<&Workspace>,
    keep_recent: int,
    pins: Seq<usize>,
    paths: Seq<Seq<char>>,
    i: int,
    said: Seq<char>,
)
    requires
        0 <= i && i + keep_recent < messages.len() <= usize::MAX,
        0 <= i < messages.len(),
        !pins.contains(i as usize),
        messages[i].content.len() == 1,
        messages[i].content[0] matches BlockModel::Text { text, .. } && said == text + "\n"@,
        forall|m: Seq<char>| is_marker(m) ==> !contains_text(unicode_lowercase(said), m),
        forall|p: int|
            0 <= p < plan_paths(messages, workspace, pins, paths).len() ==> !contains_text(
                said,
                #[trigger] plan_paths(messages, workspace, pins, paths)[p],
            ),
    ensures
        !plan_pins(messages, workspace, keep_recent, pins, paths).contains(i),
{
    let content = messages[i].content;
    let links = conversation_links(messages);
    assert(content.drop_last() =~= Seq::empty());
    assert(blocks_text(content.drop_last()) =~= Seq::empty());
    assert(blocks_text(content) =~= said);
    assert(links[i] == blocks_links(messages, content));
    assert(blocks_links(messages, content.drop_last()).len() == 0);
    assert(links[i].len() == 0);
    let set = plan_paths(messages, workspace, pins, paths);
    markers_and_paths_are_worth_keeping(said, set, Seq::empty(), 0);
    let own = own_pins(messages, workspace, keep_recent, pins, paths);
    assert(!own.contains(i));
    plain_pins_are_kept(messages, own, i);
}

// ---------------------------------------------------------------------------
// The working set
// ---------------------------------------------------------------------------

proof fn lemma_collected(
    list: Seq<Seq<char>>,
    items: Seq<Seq<char>>,
    cap: int,
    x: Seq<char>,
)
    ensures
        list.contains(x) ==> collect_new(list, items, cap).contains(x),
        collect_new(list, items, cap).len() >= list.len(),
        collect_new(list, items, cap).len() < cap && items.contains(x) ==> collect_new(
            list,
            items,
            cap,
        ).contains(x),
        collect_new(list, items, cap).contains(x) ==> list.contains(x) || items.contains(x),
    decreases items.len(),
{
    if items.len() > 0 && list.len() < cap {
        let next = with_new(list, items[0]);
        lemma_collected(next, items.skip(1), cap, x);
        if list.contains(x) {
            let k = choose|k: int| 0 <= k < list.len() && list[k] == x;
            assert(next[k] == x);
        }
        if items.contains(x) {
            let k = choose|k: int| 0 <= k < items.len() && items[k] == x;
            if k == 0 {
                if !list.contains(x) {
                    assert(next[list.len() as int] == x);
                }
                assert(next.contains(x));
            } else {
                assert(items.skip(1)[k - 1] == x);
            }
        }
        if next.contains(x) && !list.contains(x) {
            let k = choose|k: int| 0 <= k < next.len() && next[k] == x;
            if k < list.len() {
                assert(list[k] == x);
            }
            assert(items[0] == x);
        }
        if items.skip(1).contains(x) {
            let k = choose|k: int| 0 <= k < items.skip(1).len() && items.skip(1)[k] == x;
            assert(items[k + 1] == x);
        }
    }
}

proof fn lemma_seed_paths(
    messages: Seq<MessageModel>,
    workspace: Option<&Workspace>,
    seeds: Seq<usize>,
    n: int,
    x: Seq<char>,
)
    requires
        0 <= n <= messages.len() <= usize::MAX,
    ensures
        seed_paths(messages, workspace, seeds, n).contains(x) == exists|i: int|
            0 <= i < n && seeds.contains(i as usize) && (#[trigger] message_paths(
                messages[i],
                workspace,
            )).contains(x),
    decreases n,
{
    if n > 0 {
        lemma_seed_paths(messages, workspace, seeds, n - 1, x);
        let rest = seed_paths(messages, workspace, seeds, n - 1);
        let own = message_paths(messages[n - 1], workspace);
        if seeds.contains((n - 1) as usize) {
            lemma_joined_contains(own, rest, x);
        }
    }
}

proof fn lemma_joined_contains(a: Seq<Seq<char>>, b: Seq<Seq<char>>, x: Seq<char>)
    ensures
        (a + b).contains(x) == (a.contains(x) || b.contains(x)),
{
    if a.contains(x) {
        let k = choose|k: int| 0 <= k < a.len() && a[k] == x;
        assert((a + b)[k] == x);
    }
    if b.contains(x) {
        let k = choose|k: int| 0 <= k < b.len() && b[k] == x;
        assert((a + b)[a.len() + k] == x);
    }
    if (a + b).contains(x) {
        let k = choose|k: int| 0 <= k < (a + b).len() && (a + b)[k] == x;
        if k < a.len() {
            assert(a[k] == x);
        } else {
            assert(b[k - a.len()] == x);
        }
    }
}

proof fn lemma_recent_paths(
    messages: Seq<MessageModel>,
    workspace: Option<&Workspace>,
    n: int,
    k: int,
    x: Seq<char>,
)
    requires
        0 <= n <= messages.len(),
    ensures
        recent_paths(messages, workspace, n, k).contains(x) == exists|i: int|
            0 <= i < n && n - k <= i && (#[trigger] message_paths(messages[i], workspace)).contains(
                x,
            ),
    decreases n,
{
    if n > 0 && k > 0 {
        lemma_recent_paths(messages, workspace, n - 1, k - 1, x);
        let rest = recent_paths(messages, workspace, n - 1, k - 1);
        lemma_joined_contains(message_paths(messages[n - 1], workspace), rest, x);
    }
}

/// The working set is made of the paths that the pinned messages and the latest
/// twelve messages name. It holds all of them as long as they are fewer than
/// twenty-four.
pub proof fn the_working_set_names_what_is_worked_on(
    messages: Seq<MessageModel>,
    workspace: Option<&Workspace>,
    seeds: Seq<usize>,
    path: Seq<char>,
)
    requires
        messages.len() <= usize::MAX,
    ensures
        ({
            let named = exists|i: int|
                0 <= i < messages.len() && (seeds.contains(i as usize) || i + 12 >= messages.len())
                    && (#[trigger] message_paths(messages[i], workspace)).contains(path);
            let set = working_set(messages, workspace, seeds);
            &&& set.contains(path) ==> named
            &&& named && set.len() < 24 ==> set.contains(path)
        }),
{
    let n = messages.len() as int;
    let a = seed_paths(messages, workspace, seeds, n);
    let b = recent_paths(messages, workspace, n, 12);
    lemma_collected(Seq::empty(), a + b, 24, path);
    lemma_joined_contains(a, b, path);
    lemma_seed_paths(messages, workspace, seeds, n, path);
    lemma_recent_paths(messages, workspace, n, 12, path);
}

proof fn lemma_collected_in_turn(
    list: Seq<Seq<char>>,
    a: Seq<Seq<char>>,
    b: Seq<Seq<char>>,
    cap: int,
)
    ensures
        collect_new(list, a + b, cap) == collect_new(collect_new(list, a, cap), b, cap),
    decreases a.len(),
{
    if a.len() == 0 {
        assert(a + b =~= b);
    } else if list.len() < cap {
        assert((a + b).skip(1) =~= a.skip(1) + b);
        lemma_collected_in_turn(with_new(list, a[0]), a.skip(1), b, cap);
    }
}

/// Pinned messages count before recent ones: as long as they name fewer than
/// twenty-four paths, all of these are in the working set, however many paths
/// the recent messages name.
pub proof fn pinned_messages_count_first(
    messages: Seq<MessageModel>,
    workspace: Option<&Workspace>,
    seeds: Seq<usize>,
    i: int,
    path: Seq<char>,
)
    requires
        messages.len() <= usize::MAX,
        0 <= i < messages.len(),
        seeds.contains(i as usize),
        message_paths(messages[i], workspace).contains(path),
        collect_new(
            Seq::empty(),
            seed_paths(messages, workspace, seeds, messages.len() as int),
            24,
        ).len() < 24,
    ensures
        working_set(messages, workspace, seeds).contains(path),
{
    let n = messages.len() as int;
    let a = seed_paths(messages, workspace, seeds, n);
    let b = recent_paths(messages, workspace, n, 12);
    lemma_seed_paths(messages, workspace, seeds, n, path);
    lemma_collected(Seq::empty(), a, 24, path);
    lemma_collected_in_turn(Seq::empty(), a, b, 24);
    lemma_collected(collect_new(Seq::empty(), a, 24), b, 24, path);
}

/// The paths of the latest message come first among those of the recent ones,
/// and those of the latest pinned message among those of the pinned ones.
pub proof fn the_latest_paths_come_first(
    messages: Seq<MessageModel>,
    workspace: Option<&Workspace>,
    seeds: Seq<usize>,
    n: int,
    k: int,
)
    requires
        0 < n <= messages.len(),
        n <= usize::MAX,
        0 < k,
    ensures
        ({
            let own = message_paths(messages[n - 1], workspace);
            &&& recent_paths(messages, workspace, n, k).take(own.len() as int) == own
            &&& seeds.contains((n - 1) as usize) ==> seed_paths(messages, workspace, seeds, n).take(
                own.len() as int,
            ) == own
        }),
{
    let own = message_paths(messages[n - 1], workspace);
    let rest = recent_paths(messages, workspace, n - 1, k - 1);
    assert((own + rest).take(own.len() as int) =~= own);
    let before = seed_paths(messages, workspace, seeds, n - 1);
    assert((own + before).take(own.len() as int) =~= own);
}

/// The paths that the caller names belong to the working set of a plan, in the
/// form that the workspace gives them, and so do those of the conversation.
pub proof fn named_paths_belong_to_the_plan(
    messages: Seq<MessageModel>,
    workspace: Option<&Workspace>,
    pins: Seq<usize>,
    paths: Seq<Seq<char>>,
    path: Seq<char>,
)
    ensures
        plan_paths(messages, workspace, pins, paths).contains(path) == (working_set(
            messages,
            workspace,
            pins,
        ).contains(path) || exists|k: int|
            0 <= k < paths.len() && #[trigger] workspace_path(paths[k], workspace) == Some(path)),
{
    lemma_normalized(working_set(messages, workspace, pins), paths, workspace, path);
}

proof fn lemma_normalized(
    list: Seq<Seq<char>>,
    paths: Seq<Seq<char>>,
    workspace: Option<&Workspace>,
    x: Seq<char>,
)
    ensures
        with_normalized(list, paths, workspace).contains(x) == (list.contains(x) || exists|k: int|
            0 <= k < paths.len() && #[trigger] workspace_path(paths[k], workspace) == Some(x)),
    decreases paths.len(),
{
    if paths.len() > 0 {
        let front = paths.drop_last();
        lemma_normalized(list, front, workspace, x);
        let rest = with_normalized(list, front, workspace);
        if exists|k: int| 0 <= k < front.len() && #[trigger] workspace_path(
            front[k],
            workspace,
        ) == Some(x) {
            let k = choose|k: int| 0 <= k < front.len() && #[trigger] workspace_path(
                front[k],
                workspace,
            ) == Some(x);
            assert(workspace_path(paths[k], workspace) == Some(x));
        }
        if exists|k: int| 0 <= k < paths.len() && #[trigger] workspace_path(
            paths[k],
            workspace,
        ) == Some(x) {
            let k = choose|k: int| 0 <= k < paths.len() && #[trigger] workspace_path(
                paths[k],
                workspace,
            ) == Some(x);
            if k < front.len() {
                assert(workspace_path(front[k], workspace) == Some(x));
            }
        }
        if let Some(path) = workspace_path(paths.last(), workspace) {
            assert(workspace_path(paths[paths.len() - 1], workspace) == Some(path));
            lemma_with_new(rest, path, x);
        }
    }
}

proof fn lemma_with_new(list: Seq<Seq<char>>, item: Seq<char>, x: Seq<char>)
    ensures
        with_new(list, item).contains(x) == (list.contains(x) || x == item),
{
    if !list.contains(item) {
        lemma_joined_contains(list, seq![item], x);
        assert(list.push(item) =~= list + seq![item]);
        assert(seq![item].contains(x) == (x == item)) by {
            assert(seq![item][0] == item);
        }
    }
}

// ---------------------------------------------------------------------------
// Paths of messages
// ---------------------------------------------------------------------------

proof fn lemma_blocks_paths(
    blocks: Seq<BlockModel>,
    workspace: Option<&Workspace>,
    x: Seq<char>,
)
    ensures
        blocks_paths(blocks, workspace).contains(x) == exists|k: int|
            0 <= k < blocks.len() && (#[trigger] block_paths(blocks[k], workspace)).contains(x),
    decreases blocks.len(),
{
    if blocks.len() > 0 {
        let front = blocks.drop_last();
        lemma_blocks_paths(front, workspace, x);
        lemma_joined_contains(
            blocks_paths(front, workspace),
            block_paths(blocks.last(), workspace),
            x,
        );
        if exists|k: int| 0 <= k < front.len() && (#[trigger] block_paths(
            front[k],
            workspace,
        )).contains(x) {
            let k = choose|k: int| 0 <= k < front.len() && (#[trigger] block_paths(
                front[k],
                workspace,
            )).contains(x);
            assert(block_paths(blocks[k], workspace).contains(x));
        }
        if exists|k: int| 0 <= k < blocks.len() && (#[trigger] block_paths(
            blocks[k],
            workspace,
        )).contains(x) {
            let k = choose|k: int| 0 <= k < blocks.len() && (#[trigger] block_paths(
                blocks[k],
                workspace,
            )).contains(x);
            if k < front.len() {
                assert(block_paths(front[k], workspace).contains(x));
            }
        }
        assert(blocks.last() == blocks[blocks.len() - 1]);
    }
}

proof fn lemma_captured(
    captures: Seq<(Option<Seq<char>>, Option<Seq<char>>)>,
    workspace: Option<&Workspace>,
    c: int,
    x: Seq<char>,
)
    requires
        0 <= c < captures.len(),
        ({
            let found = if captures[c].0 is Some {
                captures[c].0
            } else {
                captures[c].1
            };
            found matches Some(text) && workspace_path(text, workspace) == Some(x)
        }),
    ensures
        captured_paths(captures, workspace).contains(x),
    decreases captures.len(),
{
    let front = captures.drop_last();
    let all = captured_paths(captures, workspace);
    if c == captures.len() - 1 {
        assert(all[all.len() - 1] == x);
    } else {
        assert(front[c] == captures[c]);
        lemma_captured(front, workspace, c, x);
        let rest = captured_paths(front, workspace);
        let k = choose|k: int| 0 <= k < rest.len() && rest[k] == x;
        assert(all[k] == x);
    }
}

/// A message names every path that a text or a tool result in it names: what
/// the pattern captures, in the form that the workspace gives it.
pub proof fn texts_and_results_name_paths(
    message: MessageModel,
    workspace: Option<&Workspace>,
    k: int,
    c: int,
    path: Seq<char>,
)
    requires
        0 <= k < message.content.len(),
        ({
            let said = match message.content[k] {
                BlockModel::Text { text, .. } => Some(text),
                BlockModel::ToolResult { content, .. } => Some(content),
                _ => None,
            };
            &&& said matches Some(said)
            &&& named_captures(PATH_PATTERN@, "path"@, "root"@, said) matches Some(captures)
            &&& 0 <= c < captures.len()
            &&& {
                let found = if captures[c].0 is Some {
                    captures[c].0
                } else {
                    captures[c].1
                };
                found matches Some(text) && workspace_path(text, workspace) == Some(path)
            }
        }),
    ensures
        message_paths(message, workspace).contains(path),
{
    let said = match message.content[k] {
        BlockModel::Text { text, .. } => text,
        BlockModel::ToolResult { content, .. } => content,
        _ => Seq::empty(),
    };
    let captures = named_captures(PATH_PATTERN@, "path"@, "root"@, said)->0;
    lemma_captured(captures, workspace, c, path);
    assert(text_paths(said, workspace).contains(path));
    assert(block_paths(message.content[k], workspace).contains(path));
    lemma_blocks_paths(message.content, workspace, path);
}

proof fn lemma_candidate(
    out: Seq<Seq<char>>,
    value: Option<Seq<char>>,
    workspace: Option<&Workspace>,
    x: Seq<char>,
)
    ensures
        out.contains(x) ==> with_candidate(out, value, workspace).contains(x),
        (value matches Some(v) && workspace_path(v, workspace) == Some(x)) ==> with_candidate(
            out,
            value,
            workspace,
        ).contains(x),
{
    let all = with_candidate(out, value, workspace);
    if out.contains(x) {
        let k = choose|k: int| 0 <= k < out.len() && out[k] == x;
        assert(all[k] == x);
    }
    if value matches Some(v) && workspace_path(v, workspace) == Some(x) {
        assert(all[all.len() - 1] == x);
    }
}

proof fn lemma_items(
    out: Seq<Seq<char>>,
    items: Seq<JsonModel>,
    workspace: Option<&Workspace>,
    x: Seq<char>,
    q: int,
)
    ensures
        out.contains(x) ==> with_path_items(out, items, workspace).contains(x),
        0 <= q < items.len() && (json_str(items[q]) matches Some(v) && workspace_path(v, workspace)
            == Some(x)) ==> with_path_items(out, items, workspace).contains(x),
    decreases items.len(),
{
    if items.len() > 0 {
        let front = items.drop_last();
        lemma_items(out, front, workspace, x, q);
        lemma_candidate(
            with_path_items(out, front, workspace),
            json_str(items.last()),
            workspace,
            x,
        );
        if 0 <= q < front.len() {
            assert(front[q] == items[q]);
        }
    }
}

/// A message names the paths in the input of a call: those in the fields that
/// hold one path, and those in the fields that hold a list of them.
pub proof fn calls_name_paths(
    message: MessageModel,
    workspace: Option<&Workspace>,
    k: int,
    key: Seq<char>,
    q: int,
    path: Seq<char>,
)
    requires
        0 <= k < message.content.len(),
        ({
            &&& message.content[k] matches BlockModel::ToolUse { input, .. }
            &&& {
                ||| {
                    &&& key == "path"@ || key == "file"@ || key == "target"@ || key == "cwd"@
                    &&& json_str_field(input, key) matches Some(v) && workspace_path(v, workspace)
                        == Some(path)
                }
                ||| {
                    &&& key == "paths"@ || key == "files"@ || key == "targets"@
                    &&& json_get(input, key) matches Some(JsonModel::Array(items)) && 0 <= q
                        < items.len() && (json_str(items[q]) matches Some(v) && workspace_path(
                        v,
                        workspace,
                    ) == Some(path))
                }
            }
        }),
    ensures
        message_paths(message, workspace).contains(path),
{
    if let BlockModel::ToolUse { input, .. } = message.content[k] {
        let a = with_path_field(Seq::empty(), input, "path"@, workspace);
        let b = with_path_field(a, input, "file"@, workspace);
        let c = with_path_field(b, input, "target"@, workspace);
        let d = with_path_field(c, input, "cwd"@, workspace);
        let e = with_path_list(d, input, "paths"@, workspace);
        let f = with_path_list(e, input, "files"@, workspace);
        let g = with_path_list(f, input, "targets"@, workspace);
        lemma_candidate(Seq::empty(), json_str_field(input, "path"@), workspace, path);
        lemma_candidate(a, json_str_field(input, "file"@), workspace, path);
        lemma_candidate(b, json_str_field(input, "target"@), workspace, path);
        lemma_candidate(c, json_str_field(input, "cwd"@), workspace, path);
        if let Some(JsonModel::Array(items)) = json_get(input, "paths"@) {
            lemma_items(d, items, workspace, path, q);
        }
        if let Some(JsonModel::Array(items)) = json_get(input, "files"@) {
            lemma_items(e, items, workspace, path, q);
        }
        if let Some(JsonModel::Array(items)) = json_get(input, "targets"@) {
            lemma_items(f, items, workspace, path, q);
        }
        assert(tool_input_paths(input, workspace) == g);
        assert(block_paths(message.content[k], workspace).contains(path));
        lemma_blocks_paths(message.content, workspace, path);
    }
}

} // verus!
