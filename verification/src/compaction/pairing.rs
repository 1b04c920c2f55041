//! Keeping tool calls and their results together.
//!
//! Every tool call or result of a message links the message to the message that
//! holds its counterpart. A set of pinned messages is repaired step by step: a
//! message whose counterpart is missing is dropped for good, and the
//! counterparts of the others are added.

use std::collections::BTreeSet;

use vstd::prelude::*;

use crate::models::{
    block_models, conversation, BlockModel, ContentBlock, Message, MessageModel,
};
use crate::text::same_text;

verus! {

// ---------------------------------------------------------------------------
// Links
// ---------------------------------------------------------------------------

/// The block holds the call (or the result) of the tool use `id`.
pub open spec fn block_matches(block: BlockModel, id: Seq<char>, call: bool) -> bool {
    match block {
        BlockModel::ToolUse { id: i, .. } => call && i == id,
        BlockModel::ToolResult { tool_use_id, .. } => !call && tool_use_id == id,
        _ => false,
    }
}

/// The message holds the call (or the result) of the tool use `id`.
pub open spec fn message_matches(message: MessageModel, id: Seq<char>, call: bool) -> bool {
    exists|k: int|
        0 <= k < message.content.len() && block_matches(#[trigger] message.content[k], id, call)
}

/// The last of the first `n` messages that holds the call (or the result) of
/// the tool use `id`.
pub open spec fn last_match(messages: Seq<MessageModel>, id: Seq<char>, call: bool, n: int) -> Option<int>
    decreases n,
{
    if n <= 0 {
        None
    } else if message_matches(messages[n - 1], id, call) {
        Some(n - 1)
    } else {
        last_match(messages, id, call, n - 1)
    }
}

/// `links` and the link of one block, where the block has one: the message that
/// holds the counterpart, or none when there is no such message.
pub open spec fn with_block_link(
    links: Seq<Option<int>>,
    messages: Seq<MessageModel>,
    block: BlockModel,
) -> Seq<Option<int>> {
    let n = messages.len() as int;
    match block {
        BlockModel::ToolUse { id, .. } => links.push(last_match(messages, id, false, n)),
        BlockModel::ToolResult { tool_use_id, .. } => links.push(
            last_match(messages, tool_use_id, true, n),
        ),
        _ => links,
    }
}

/// The links of a list of blocks.
pub open spec fn blocks_links(messages: Seq<MessageModel>, blocks: Seq<BlockModel>) -> Seq<Option<int>>
    decreases blocks.len(),
{
    if blocks.len() == 0 {
        Seq::empty()
    } else {
        with_block_link(blocks_links(messages, blocks.drop_last()), messages, blocks.last())
    }
}

/// The links of every message of a conversation.
pub open spec fn conversation_links(messages: Seq<MessageModel>) -> Seq<Seq<Option<int>>> {
    messages.map_values(|m: MessageModel| blocks_links(messages, m.content))
}

proof fn lemma_last_match(messages: Seq<MessageModel>, id: Seq<char>, call: bool, n: int)
    requires
        0 <= n <= messages.len(),
    ensures
        last_match(messages, id, call, n) matches Some(i) ==> 0 <= i < n,
    decreases n,
{
    if n > 0 && !message_matches(messages[n - 1], id, call) {
        lemma_last_match(messages, id, call, n - 1);
    }
}

proof fn lemma_blocks_links_bounded(messages: Seq<MessageModel>, blocks: Seq<BlockModel>)
    ensures
        forall|k: int|
            0 <= k < blocks_links(messages, blocks).len() ==> (
            #[trigger] blocks_links(messages, blocks)[k] matches Some(j) ==> 0 <= j
                < messages.len()),
    decreases blocks.len(),
{
    if blocks.len() > 0 {
        lemma_blocks_links_bounded(messages, blocks.drop_last());
        match blocks.last() {
            BlockModel::ToolUse { id, .. } => {
                lemma_last_match(messages, id, false, messages.len() as int);
            },
            BlockModel::ToolResult { tool_use_id, .. } => {
                lemma_last_match(messages, tool_use_id, true, messages.len() as int);
            },
            _ => {},
        }
    }
}

/// Every link leads to a message of the conversation.
pub open spec fn links_bounded(links: Seq<Seq<Option<int>>>) -> bool {
    forall|i: int, k: int|
        0 <= i < links.len() && 0 <= k < links[i].len() ==> (#[trigger] links[i][k] matches Some(j)
            ==> 0 <= j < links.len())
}

proof fn lemma_links_bounded(messages: Seq<MessageModel>)
    ensures
        links_bounded(conversation_links(messages)),
{
    let links = conversation_links(messages);
    assert forall|i: int, k: int| 0 <= i < links.len() && 0 <= k < links[i].len() implies (
    #[trigger] links[i][k] matches Some(j) ==> 0 <= j < links.len()) by {
        lemma_blocks_links_bounded(messages, messages[i].content);
        assert(links[i] == blocks_links(messages, messages[i].content));
    }
}

// ---------------------------------------------------------------------------
// Repair
// ---------------------------------------------------------------------------

/// The pinned messages, and those that were dropped for good.
#[verifier::ext_equal]
pub struct PairState {
    pub pinned: Set<int>,
    pub dropped: Set<int>,
}

/// Message `i` has a call or a result whose counterpart does not exist or was
/// dropped.
pub open spec fn is_orphaned(links: Seq<Seq<Option<int>>>, dropped: Set<int>, i: int) -> bool {
    exists|k: int|
        0 <= k < links[i].len() && (match #[trigger] links[i][k] {
            Some(j) => dropped.contains(j),
            None => true,
        })
}

/// Message `i` links to message `j`.
pub open spec fn links_to(links: Seq<Seq<Option<int>>>, i: int, j: int) -> bool {
    exists|k: int| 0 <= k < links[i].len() && #[trigger] links[i][k] == Some(j)
}

/// Message `j` holds the counterpart of a call or a result in a pinned message.
pub open spec fn is_needed(links: Seq<Seq<Option<int>>>, state: PairState, j: int) -> bool {
    !state.dropped.contains(j) && exists|i: int|
        0 <= i < links.len() && state.pinned.contains(i) && #[trigger] links_to(links, i, j)
}

/// One repair step. Dropping takes precedence over adding.
pub open spec fn repair_step(links: Seq<Seq<Option<int>>>, state: PairState) -> PairState {
    let orphans = Set::new(
        |i: int| 0 <= i < links.len() && state.pinned.contains(i) && is_orphaned(links, state.dropped, i),
    );
    PairState {
        pinned: Set::new(
            |i: int|
                0 <= i < links.len() && (state.pinned.contains(i) || is_needed(links, state, i))
                    && !orphans.contains(i),
        ),
        dropped: state.dropped.union(orphans),
    }
}

/// `steps` repair steps in a row.
pub open spec fn repaired(links: Seq<Seq<Option<int>>>, state: PairState, steps: nat) -> PairState
    decreases steps,
{
    if steps == 0 {
        state
    } else {
        repaired(links, repair_step(links, state), (steps - 1) as nat)
    }
}

/// How many repair steps are made at most for a conversation of `n` messages.
pub open spec fn repair_limit(n: nat) -> nat {
    if n < 10 {
        10
    } else {
        n
    }
}

/// The state before the first repair step.
pub open spec fn initial_state(pinned: Set<int>) -> PairState {
    PairState { pinned, dropped: Set::empty() }
}

/// The pinned messages once calls and results are kept together.
pub open spec fn paired_pins(messages: Seq<MessageModel>, pinned: Set<int>) -> Set<int> {
    repaired(
        conversation_links(messages),
        initial_state(pinned),
        repair_limit(messages.len()),
    ).pinned
}

/// A repair step changes nothing.
pub open spec fn is_at_rest(links: Seq<Seq<Option<int>>>, state: PairState) -> bool {
    repair_step(links, state) == state
}

/// One of the repair steps within the limit changes nothing.
pub open spec fn repair_settles(messages: Seq<MessageModel>, pinned: Set<int>) -> bool {
    let links = conversation_links(messages);
    exists|k: nat|
        k < repair_limit(messages.len()) && is_at_rest(
            links,
            #[trigger] repaired(links, initial_state(pinned), k),
        )
}

/// Every call or result in a pinned message has its counterpart pinned.
pub open spec fn is_paired(messages: Seq<MessageModel>, pinned: Set<int>) -> bool {
    let links = conversation_links(messages);
    forall|i: int, k: int|
        0 <= i < links.len() && pinned.contains(i) && 0 <= k < links[i].len() ==> (
        #[trigger] links[i][k] matches Some(j) && pinned.contains(j))
}

// ---------------------------------------------------------------------------
// Laws
// ---------------------------------------------------------------------------

/// Where the repair settles, no tool result stays pinned without its call and
/// no call without its result.
pub proof fn settled_pins_are_paired(messages: Seq<MessageModel>, pinned: Set<int>)
    requires
        repair_settles(messages, pinned),
    ensures
        is_paired(messages, paired_pins(messages, pinned)),
{
    let links = conversation_links(messages);
    let start = initial_state(pinned);
    let limit = repair_limit(messages.len());
    let k = choose|k: nat| k < limit && is_at_rest(links, #[trigger] repaired(links, start, k));
    let last = repaired(links, start, k);
    lemma_steps_add(links, start, k, (limit - k) as nat);
    lemma_at_rest(links, last, (limit - k) as nat);
    lemma_links_bounded(messages);
    lemma_fixpoint_is_paired(links, last);
}

/// Some steps and then more of them are that many steps in all.
proof fn lemma_steps_add(links: Seq<Seq<Option<int>>>, state: PairState, first: nat, more: nat)
    ensures
        repaired(links, state, first + more) == repaired(
            links,
            repaired(links, state, first),
            more,
        ),
    decreases first,
{
    if first > 0 {
        lemma_steps_add(links, repair_step(links, state), (first - 1) as nat, more);
    }
}

proof fn lemma_fixpoint_is_paired(links: Seq<Seq<Option<int>>>, state: PairState)
    requires
        links_bounded(links),
        repair_step(links, state) == state,
    ensures
        forall|i: int, k: int|
            0 <= i < links.len() && state.pinned.contains(i) && 0 <= k < links[i].len() ==> (
            #[trigger] links[i][k] matches Some(j) && state.pinned.contains(j)),
{
    let next = repair_step(links, state);
    assert forall|i: int, k: int|
        0 <= i < links.len() && state.pinned.contains(i) && 0 <= k < links[i].len() implies (
    #[trigger] links[i][k] matches Some(j) && state.pinned.contains(j)) by {
        assert(next.pinned.contains(i));
        assert(!is_orphaned(links, state.dropped, i));
        match links[i][k] {
            Some(j) => {
                assert(links_to(links, i, j));
                assert(is_needed(links, state, j));
                if !state.pinned.contains(j) {
                    assert(!next.pinned.contains(j));
                    assert(false);
                }
            },
            None => {},
        }
    }
}

/// A message without tool calls and results stays as it is: it is pinned after
/// the repair exactly where it was pinned before.
pub proof fn plain_pins_are_kept(messages: Seq<MessageModel>, pinned: Set<int>, i: int)
    requires
        0 <= i < messages.len(),
        conversation_links(messages)[i].len() == 0,
    ensures
        paired_pins(messages, pinned).contains(i) == pinned.contains(i),
{
    lemma_no_links_back(messages, i);
    lemma_plain_kept(
        conversation_links(messages),
        initial_state(pinned),
        repair_limit(messages.len()),
        i,
    );
}

/// No message links to one without tool calls and results.
proof fn lemma_no_links_back(messages: Seq<MessageModel>, i: int)
    requires
        0 <= i < messages.len(),
        conversation_links(messages)[i].len() == 0,
    ensures
        forall|j: int|
            0 <= j < messages.len() ==> !#[trigger] links_to(conversation_links(messages), j, i),
{
    let links = conversation_links(messages);
    assert forall|j: int| 0 <= j < messages.len() implies !#[trigger] links_to(links, j, i) by {
        assert(links[j] == blocks_links(messages, messages[j].content));
        assert(links[i] == blocks_links(messages, messages[i].content));
        lemma_blocks_link_to_tools(messages, messages[j].content, i);
    }
}

proof fn lemma_blocks_link_to_tools(messages: Seq<MessageModel>, blocks: Seq<BlockModel>, i: int)
    requires
        0 <= i < messages.len(),
        blocks_links(messages, messages[i].content).len() == 0,
    ensures
        forall|k: int|
            0 <= k < blocks_links(messages, blocks).len() ==> #[trigger] blocks_links(
                messages,
                blocks,
            )[k] != Some(i),
    decreases blocks.len(),
{
    if blocks.len() > 0 {
        lemma_blocks_link_to_tools(messages, blocks.drop_last(), i);
        match blocks.last() {
            BlockModel::ToolUse { id, .. } => {
                lemma_match_has_links(messages, id, false, messages.len() as int);
            },
            BlockModel::ToolResult { tool_use_id, .. } => {
                lemma_match_has_links(messages, tool_use_id, true, messages.len() as int);
            },
            _ => {},
        }
    }
}

/// A message that holds a call or a result has a link of its own.
proof fn lemma_match_has_links(messages: Seq<MessageModel>, id: Seq<char>, call: bool, n: int)
    requires
        0 <= n <= messages.len(),
    ensures
        last_match(messages, id, call, n) matches Some(i) ==> blocks_links(
            messages,
            messages[i].content,
        ).len() > 0,
    decreases n,
{
    if n > 0 {
        if message_matches(messages[n - 1], id, call) {
            let content = messages[n - 1].content;
            let k = choose|k: int|
                0 <= k < content.len() && block_matches(#[trigger] content[k], id, call);
            lemma_tool_block_links(messages, content, k);
        } else {
            lemma_match_has_links(messages, id, call, n - 1);
        }
    }
}

proof fn lemma_tool_block_links(messages: Seq<MessageModel>, blocks: Seq<BlockModel>, k: int)
    requires
        0 <= k < blocks.len(),
        blocks[k] is ToolUse || blocks[k] is ToolResult,
    ensures
        blocks_links(messages, blocks).len() > 0,
    decreases blocks.len(),
{
    if k < blocks.len() - 1 {
        lemma_tool_block_links(messages, blocks.drop_last(), k);
    }
}

proof fn lemma_plain_kept(links: Seq<Seq<Option<int>>>, state: PairState, steps: nat, i: int)
    requires
        0 <= i < links.len(),
        links[i].len() == 0,
        forall|j: int| 0 <= j < links.len() ==> !#[trigger] links_to(links, j, i),
    ensures
        repaired(links, state, steps).pinned.contains(i) == state.pinned.contains(i),
    decreases steps,
{
    if steps > 0 {
        assert(!is_orphaned(links, state.dropped, i));
        assert(!is_needed(links, state, i));
        lemma_plain_kept(links, repair_step(links, state), (steps - 1) as nat, i);
    }
}

/// Every tool call of the conversation has a result, and every result a call.
pub open spec fn is_complete(messages: Seq<MessageModel>) -> bool {
    let links = conversation_links(messages);
    forall|i: int, k: int|
        0 <= i < links.len() && 0 <= k < links[i].len() ==> #[trigger] links[i][k] is Some
}

/// In a conversation whose calls and results are complete, the repair settles,
/// keeps every pin, and leaves every call and result paired.
pub proof fn complete_conversations_keep_pins(messages: Seq<MessageModel>, pinned: Set<int>)
    requires
        is_complete(messages),
        forall|i: int| pinned.contains(i) ==> 0 <= i < messages.len(),
    ensures
        pinned.subset_of(paired_pins(messages, pinned)),
        repair_settles(messages, pinned),
        is_paired(messages, paired_pins(messages, pinned)),
{
    let links = conversation_links(messages);
    let n = messages.len();
    let start = initial_state(pinned);
    let limit = repair_limit(n);
    let steps = (limit - 1) as nat;
    lemma_links_bounded(messages);
    lemma_growth(links, start, limit);
    lemma_growth(links, start, steps);
    let last = repaired(links, start, steps);
    if !is_at_rest(links, last) {
        // Each of the steps would have added a message: there are not so many.
        lemma_subset_of_range(last.pinned, n as int);
        lemma_subset_of_range(pinned, n as int);
        if pinned.len() == 0 {
            assert(pinned =~= Set::<int>::empty());
            assert(repair_step(links, start) =~= start);
            lemma_at_rest(links, start, steps);
        }
        lemma_complete_step(links, last);
        let next = repair_step(links, last);
        lemma_subset_of_range(next.pinned, n as int);
        assert(next.dropped =~= last.dropped);
        if next.pinned.len() == last.pinned.len() {
            vstd::set_lib::lemma_subset_equality(last.pinned, next.pinned);
        }
        vstd::set_lib::lemma_len_subset(last.pinned, next.pinned);
        assert(false);
    }
    settled_pins_are_paired(messages, pinned);
}

proof fn lemma_subset_of_range(s: Set<int>, n: int)
    requires
        0 <= n,
        forall|i: int| s.contains(i) ==> 0 <= i < n,
    ensures
        s.finite(),
        s.len() <= n,
{
    let range = vstd::set_lib::set_int_range(0, n);
    vstd::set_lib::lemma_int_range(0, n);
    assert(s.subset_of(range));
    vstd::set_lib::lemma_len_subset(s, range);
}

proof fn lemma_complete_step(links: Seq<Seq<Option<int>>>, state: PairState)
    requires
        forall|i: int, k: int|
            0 <= i < links.len() && 0 <= k < links[i].len() ==> #[trigger] links[i][k] is Some,
        state.dropped == Set::<int>::empty(),
        forall|i: int| state.pinned.contains(i) ==> 0 <= i < links.len(),
    ensures
        state.pinned.subset_of(repair_step(links, state).pinned),
        repair_step(links, state).dropped == Set::<int>::empty(),
        forall|i: int|
            repair_step(links, state).pinned.contains(i) ==> 0 <= i < links.len(),
{
    let next = repair_step(links, state);
    assert forall|i: int| 0 <= i < links.len() implies !is_orphaned(links, state.dropped, i) by {
        assert forall|k: int| 0 <= k < links[i].len() implies !(match #[trigger] links[i][k] {
            Some(j) => state.dropped.contains(j),
            None => true,
        }) by {}
    }
    assert(next.dropped =~= Set::<int>::empty());
}

/// After `steps` steps from a state with nothing dropped, either the repair has
/// settled or at least `steps` messages were added.
proof fn lemma_growth(links: Seq<Seq<Option<int>>>, state: PairState, steps: nat)
    requires
        forall|i: int, k: int|
            0 <= i < links.len() && 0 <= k < links[i].len() ==> #[trigger] links[i][k] is Some,
        state.dropped == Set::<int>::empty(),
        forall|i: int| state.pinned.contains(i) ==> 0 <= i < links.len(),
    ensures
        ({
            let last = repaired(links, state, steps);
            &&& state.pinned.subset_of(last.pinned)
            &&& last.dropped == Set::<int>::empty()
            &&& forall|i: int| last.pinned.contains(i) ==> 0 <= i < links.len()
            &&& repair_step(links, last) == last || last.pinned.len() >= state.pinned.len() + steps
        }),
    decreases steps,
{
    let n = links.len() as int;
    lemma_subset_of_range(state.pinned, n);
    if steps > 0 {
        let next = repair_step(links, state);
        lemma_complete_step(links, state);
        lemma_growth(links, next, (steps - 1) as nat);
        lemma_subset_of_range(next.pinned, n);
        if next == state {
            lemma_at_rest(links, state, steps);
        } else {
            vstd::set_lib::lemma_len_subset(state.pinned, next.pinned);
            if next.pinned.len() == state.pinned.len() {
                vstd::set_lib::lemma_subset_equality(state.pinned, next.pinned);
            }
        }
    }
}

proof fn lemma_at_rest(links: Seq<Seq<Option<int>>>, state: PairState, steps: nat)
    requires
        repair_step(links, state) == state,
    ensures
        repaired(links, state, steps) == state,
    decreases steps,
{
    if steps > 0 {
        lemma_at_rest(links, state, (steps - 1) as nat);
    }
}

// ---------------------------------------------------------------------------
// Code
// ---------------------------------------------------------------------------

/// The positions that are set in a list of flags.
pub open spec fn flagged(flags: Seq<bool>) -> Set<int> {
    Set::new(|i: int| 0 <= i < flags.len() && flags[i])
}

/// A set of machine indices as mathematical integers.
pub open spec fn indices(s: Set<usize>) -> Set<int> {
    Set::new(|i: int| 0 <= i <= usize::MAX && s.contains(i as usize))
}

/// Machine indices are as many as the integers they stand for.
pub(crate) proof fn lemma_indices_len(s: Set<usize>, n: int)
    requires
        0 <= n,
        forall|i: usize| s.contains(i) ==> i < n,
    ensures
        indices(s).len() == s.len(),
{
    let f = |i: int| i as usize;
    lemma_subset_of_range(indices(s), n);
    assert(indices(s).map(f) =~= s) by {
        assert forall|i: usize| s.contains(i) implies indices(s).map(f).contains(i) by {
            assert(indices(s).contains(i as int));
            assert(f(i as int) == i);
        }
    }
    vstd::set_lib::lemma_map_size(indices(s), s, f);
}

/// How many repair steps are made at most for a conversation of `n` messages.
pub fn step_limit(n: usize) -> (res: usize)
    ensures
        res == repair_limit(n as nat),
{
    if n < 10 {
        10
    } else {
        n
    }
}

fn message_holds(message: &Message, id: &str, call: bool) -> (res: bool)
    ensures
        res == message_matches(message@, id@, call),
{
    let mut k: usize = 0;
    while k < message.content.len()
        invariant
            k <= message.content@.len(),
            forall|j: int|
                0 <= j < k ==> !block_matches(#[trigger] message@.content[j], id@, call),
        decreases message.content@.len() - k,
    {
        let found = match &message.content[k] {
            ContentBlock::ToolUse { id: i, .. } => call && same_text(i.as_str(), id),
            ContentBlock::ToolResult { tool_use_id, .. } => !call && same_text(
                tool_use_id.as_str(),
                id,
            ),
            _ => false,
        };
        if found {
            proof { assert(block_matches(message@.content[k as int], id@, call)); }
            return true;
        }
        k += 1;
    }
    false
}

fn find_last_match(messages: &[Message], id: &str, call: bool) -> (res: Option<usize>)
    ensures
        match res {
            Some(i) => last_match(conversation(messages@), id@, call, messages@.len() as int)
                == Some(i as int) && i < messages@.len(),
            None => last_match(conversation(messages@), id@, call, messages@.len() as int) is None,
        },
{
    let mut n: usize = messages.len();
    while n > 0
        invariant
            n <= messages@.len(),
            last_match(conversation(messages@), id@, call, messages@.len() as int) == last_match(
                conversation(messages@),
                id@,
                call,
                n as int,
            ),
        decreases n,
    {
        proof { assert(conversation(messages@)[n - 1] == messages@[n - 1]@); }
        if message_holds(&messages[n - 1], id, call) {
            return Some(n - 1);
        }
        n -= 1;
    }
    None
}

/// The links of one message, as mathematical integers.
pub open spec fn link_model(links: Seq<Option<usize>>) -> Seq<Option<int>> {
    links.map_values(
        |l: Option<usize>|
            match l {
                Some(i) => Some(i as int),
                None => None,
            },
    )
}

/// The links of all messages, as mathematical integers.
pub open spec fn links_model(links: Seq<Vec<Option<usize>>>) -> Seq<Seq<Option<int>>> {
    links.map_values(|l: Vec<Option<usize>>| link_model(l@))
}

fn message_links(messages: &[Message], at: usize) -> (res: Vec<Option<usize>>)
    requires
        at < messages@.len(),
    ensures
        link_model(res@) == blocks_links(conversation(messages@), messages@[at as int]@.content),
{
    let ghost all = conversation(messages@);
    let ghost models = block_models(messages@[at as int].content@);
    let mut out: Vec<Option<usize>> = Vec::new();
    let mut k: usize = 0;
    proof {
        assert(models.take(0) =~= Seq::empty());
        assert(link_model(out@) =~= Seq::empty());
    }
    while k < messages[at].content.len()
        invariant
            at < messages@.len(),
            all == conversation(messages@),
            models == block_models(messages@[at as int].content@),
            k <= models.len(),
            link_model(out@) == blocks_links(all, models.take(k as int)),
        decreases models.len() - k,
    {
        let ghost before = out@;
        proof { assert(models.take(k + 1).drop_last() =~= models.take(k as int)); }
        match &messages[at].content[k] {
            ContentBlock::ToolUse { id, .. } => {
                let link = find_last_match(messages, id.as_str(), false);
                out.push(link);
                proof {
                    assert(link_model(out@) =~= link_model(before).push(
                        last_match(all, id@, false, all.len() as int),
                    ));
                }
            },
            ContentBlock::ToolResult { tool_use_id, .. } => {
                let link = find_last_match(messages, tool_use_id.as_str(), true);
                out.push(link);
                proof {
                    assert(link_model(out@) =~= link_model(before).push(
                        last_match(all, tool_use_id@, true, all.len() as int),
                    ));
                }
            },
            _ => {},
        }
        k += 1;
    }
    proof { assert(models.take(k as int) =~= models); }
    out
}

fn find_links(messages: &[Message]) -> (res: Vec<Vec<Option<usize>>>)
    ensures
        links_model(res@) == conversation_links(conversation(messages@)),
{
    let ghost all = conversation(messages@);
    let mut out: Vec<Vec<Option<usize>>> = Vec::new();
    let mut i: usize = 0;
    while i < messages.len()
        invariant
            i <= messages@.len(),
            all == conversation(messages@),
            out@.len() == i,
            forall|j: int|
                0 <= j < i ==> link_model((#[trigger] out@[j])@) == blocks_links(
                    all,
                    all[j].content,
                ),
        decreases messages@.len() - i,
    {
        let links = message_links(messages, i);
        out.push(links);
        i += 1;
    }
    proof { assert(links_model(out@) =~= conversation_links(all)); }
    out
}

fn find_orphans(links: &Vec<Vec<Option<usize>>>, pinned: &Vec<bool>, dropped: &Vec<bool>) -> (res: Vec<
    bool,
>)
    requires
        pinned@.len() == links@.len(),
        dropped@.len() == links@.len(),
        links_bounded(links_model(links@)),
    ensures
        res@.len() == links@.len(),
        forall|i: int|
            0 <= i < links@.len() ==> #[trigger] res@[i] == (pinned@[i] && is_orphaned(
                links_model(links@),
                flagged(dropped@),
                i,
            )),
{
    let ghost lm = links_model(links@);
    let mut out: Vec<bool> = Vec::new();
    let mut i: usize = 0;
    while i < links.len()
        invariant
            i <= links@.len() == lm.len(),
            lm == links_model(links@),
            pinned@.len() == links@.len(),
            dropped@.len() == links@.len(),
            links_bounded(lm),
            out@.len() == i,
            forall|j: int|
                0 <= j < i ==> #[trigger] out@[j] == (pinned@[j] && is_orphaned(
                    lm,
                    flagged(dropped@),
                    j,
                )),
        decreases links@.len() - i,
    {
        let mut orphan = false;
        if pinned[i] {
            let row = &links[i];
            let mut k: usize = 0;
            proof { assert(lm[i as int] == link_model(row@)); }
            while k < row.len()
                invariant
                    k <= row@.len(),
                    i < links@.len() == lm.len(),
                    lm[i as int] == link_model(row@),
                    dropped@.len() == links@.len(),
                    links_bounded(lm),
                    orphan == exists|q: int|
                        0 <= q < k && (match #[trigger] lm[i as int][q] {
                            Some(j) => flagged(dropped@).contains(j),
                            None => true,
                        }),
                decreases row@.len() - k,
            {
                proof {
                    assert(lm[i as int][k as int] == link_model(row@)[k as int]);
                }
                let bad = match row[k] {
                    Some(j) => dropped[j],
                    None => true,
                };
                if bad {
                    orphan = true;
                }
                k += 1;
            }
        }
        out.push(orphan);
        i += 1;
    }
    out
}

fn find_needed(links: &Vec<Vec<Option<usize>>>, pinned: &Vec<bool>, dropped: &Vec<bool>) -> (res: Vec<
    bool,
>)
    requires
        pinned@.len() == links@.len(),
        dropped@.len() == links@.len(),
        links_bounded(links_model(links@)),
    ensures
        res@.len() == links@.len(),
        forall|j: int|
            0 <= j < links@.len() ==> #[trigger] res@[j] == is_needed(
                links_model(links@),
                (PairState { pinned: flagged(pinned@), dropped: flagged(dropped@) }),
                j,
            ),
{
    let ghost lm = links_model(links@);
    let ghost state = PairState { pinned: flagged(pinned@), dropped: flagged(dropped@) };
    let total: usize = links.len();
    let mut out: Vec<bool> = Vec::new();
    let mut i: usize = 0;
    while i < total
        invariant
            i <= total == links@.len(),
            out@.len() == i,
            forall|j: int| 0 <= j < i ==> !(#[trigger] out@[j]),
        decreases total - i,
    {
        out.push(false);
        i += 1;
    }
    let mut i: usize = 0;
    while i < total
        invariant
            i <= total == links@.len() == lm.len(),
            lm == links_model(links@),
            pinned@.len() == total,
            dropped@.len() == total,
            out@.len() == total,
            links_bounded(lm),
            state == (PairState { pinned: flagged(pinned@), dropped: flagged(dropped@) }),
            forall|j: int|
                0 <= j < total ==> #[trigger] out@[j] == (!state.dropped.contains(j) && exists|p: int|
                    0 <= p < i && state.pinned.contains(p) && #[trigger] links_to(lm, p, j)),
        decreases total - i,
    {
        let ghost before = out@;
        if pinned[i] {
            let row = &links[i];
            let mut k: usize = 0;
            proof { assert(lm[i as int] == link_model(row@)); }
            while k < row.len()
                invariant
                    k <= row@.len(),
                    i < total == links@.len() == lm.len(),
                    lm[i as int] == link_model(row@),
                    dropped@.len() == total,
                    out@.len() == total,
                    before.len() == total,
                    links_bounded(lm),
                    state.dropped == flagged(dropped@),
                    forall|j: int|
                        0 <= j < total ==> #[trigger] out@[j] == (before[j] || (
                        !state.dropped.contains(j) && exists|q: int|
                            0 <= q < k && #[trigger] lm[i as int][q] == Some(j))),
                decreases row@.len() - k,
            {
                proof { assert(lm[i as int][k as int] == link_model(row@)[k as int]); }
                let ghost prev = out@;
                if let Some(j) = row[k] {
                    if !dropped[j] {
                        out.set(j, true);
                    }
                }
                proof {
                    assert forall|j: int| 0 <= j < total implies #[trigger] out@[j] == (before[j]
                        || (!state.dropped.contains(j) && exists|q: int|
                        0 <= q < k + 1 && #[trigger] lm[i as int][q] == Some(j))) by {
                        let here = lm[i as int][k as int] == Some(j);
                        assert(out@[j] == (prev[j] || (here && !state.dropped.contains(j))));
                        if exists|q: int| 0 <= q < k + 1 && #[trigger] lm[i as int][q] == Some(j) {
                            let q = choose|q: int|
                                0 <= q < k + 1 && #[trigger] lm[i as int][q] == Some(j);
                            if q == k {
                                assert(here);
                            }
                        }
                    }
                }
                k += 1;
            }
            proof {
                assert forall|j: int| 0 <= j < total implies #[trigger] out@[j] == (
                !state.dropped.contains(j) && exists|p: int|
                    0 <= p < i + 1 && state.pinned.contains(p) && #[trigger] links_to(lm, p, j)) by {
                    assert(links_to(lm, i as int, j) == exists|q: int|
                        0 <= q < row@.len() && #[trigger] lm[i as int][q] == Some(j));
                    assert(out@[j] == (before[j] || (!state.dropped.contains(j) && links_to(
                        lm,
                        i as int,
                        j,
                    ))));
                    if !state.dropped.contains(j) && exists|p: int|
                        0 <= p < i + 1 && state.pinned.contains(p) && #[trigger] links_to(lm, p, j) {
                        let p = choose|p: int|
                            0 <= p < i + 1 && state.pinned.contains(p) && #[trigger] links_to(
                                lm,
                                p,
                                j,
                            );
                        if p < i {
                            assert(before[j]);
                        }
                    }
                }
            }
        }
        i += 1;
    }
    out
}

/// One repair step. Returns the pinned and the dropped messages after it, and
/// whether it changed anything.
fn make_step(links: &Vec<Vec<Option<usize>>>, pinned: &Vec<bool>, dropped: &Vec<bool>) -> (res: (
    Vec<bool>,
    Vec<bool>,
    bool,
))
    requires
        pinned@.len() == links@.len(),
        dropped@.len() == links@.len(),
        links_bounded(links_model(links@)),
    ensures
        res.0@.len() == links@.len(),
        res.1@.len() == links@.len(),
        ({
            let before = PairState { pinned: flagged(pinned@), dropped: flagged(dropped@) };
            let after = PairState { pinned: flagged(res.0@), dropped: flagged(res.1@) };
            &&& after == repair_step(links_model(links@), before)
            &&& res.2 == (after != before)
        }),
{
    let ghost lm = links_model(links@);
    let ghost before = PairState { pinned: flagged(pinned@), dropped: flagged(dropped@) };
    let total: usize = links.len();
    let orphans = find_orphans(links, pinned, dropped);
    let needed = find_needed(links, pinned, dropped);
    let mut now_pinned: Vec<bool> = Vec::new();
    let mut now_dropped: Vec<bool> = Vec::new();
    let mut changed = false;
    let mut i: usize = 0;
    while i < total
        invariant
            i <= total == links@.len() == lm.len(),
            pinned@.len() == total,
            dropped@.len() == total,
            orphans@.len() == total,
            needed@.len() == total,
            now_pinned@.len() == i,
            now_dropped@.len() == i,
            forall|j: int|
                0 <= j < i ==> #[trigger] now_pinned@[j] == ((pinned@[j] || needed@[j])
                    && !orphans@[j]),
            forall|j: int| 0 <= j < i ==> #[trigger] now_dropped@[j] == (dropped@[j] || orphans@[j]),
            forall|j: int| 0 <= j < total && #[trigger] orphans@[j] ==> pinned@[j],
            changed == exists|j: int| 0 <= j < i && #[trigger] now_pinned@[j] != pinned@[j],
        decreases total - i,
    {
        let now = (pinned[i] || needed[i]) && !orphans[i];
        let ghost old_pinned = now_pinned@;
        now_pinned.push(now);
        now_dropped.push(dropped[i] || orphans[i]);
        proof {
            assert forall|j: int| 0 <= j < i implies #[trigger] now_pinned@[j] == old_pinned[j] by {}
            assert(now_pinned@[i as int] == now);
            if changed {
                let j = choose|j: int| 0 <= j < i && #[trigger] old_pinned[j] != pinned@[j];
                assert(now_pinned@[j] != pinned@[j]);
            }
        }
        if now != pinned[i] {
            changed = true;
        }
        i += 1;
    }
    proof {
        let after = PairState { pinned: flagged(now_pinned@), dropped: flagged(now_dropped@) };
        let next = repair_step(lm, before);
        assert(after.pinned =~= next.pinned);
        assert(after.dropped =~= next.dropped);
        if changed {
            let j = choose|j: int| 0 <= j < total && #[trigger] now_pinned@[j] != pinned@[j];
            assert(after.pinned.contains(j) != before.pinned.contains(j));
        } else {
            assert forall|j: int| 0 <= j < total implies !(#[trigger] orphans@[j]) by {
                assert(now_pinned@[j] == pinned@[j]);
            }
            assert(after.pinned =~= before.pinned);
            assert(after.dropped =~= before.dropped);
        }
    }
    (now_pinned, now_dropped, changed)
}

/// Repairs the pins of a conversation. Returns the messages that stay pinned,
/// and whether one of the steps within the limit changed nothing.
fn run_repair(messages: &[Message], pinned_indices: &BTreeSet<usize>) -> (res: (Vec<bool>, bool))
    requires
        forall|i: usize| pinned_indices@.contains(i) ==> i < messages@.len(),
    ensures
        res.0@.len() == messages@.len(),
        flagged(res.0@) == paired_pins(conversation(messages@), indices(pinned_indices@)),
        res.1 == repair_settles(conversation(messages@), indices(pinned_indices@)),
{
    let ghost all = conversation(messages@);
    let ghost start = indices(pinned_indices@);
    let total: usize = messages.len();
    let links = find_links(messages);
    let ghost lm = links_model(links@);
    let mut pinned: Vec<bool> = Vec::new();
    let mut dropped: Vec<bool> = Vec::new();
    let mut i: usize = 0;
    while i < total
        invariant
            i <= total,
            pinned@.len() == i,
            dropped@.len() == i,
            forall|j: int| 0 <= j < i ==> #[trigger] pinned@[j] == pinned_indices@.contains(j as usize),
            forall|j: int| 0 <= j < i ==> !(#[trigger] dropped@[j]),
        decreases total - i,
    {
        pinned.push(pinned_indices.contains(&i));
        dropped.push(false);
        i += 1;
    }
    proof {
        lemma_links_bounded(all);
        assert(lm == conversation_links(all));
        assert(flagged(pinned@) =~= start);
        assert(flagged(dropped@) =~= Set::<int>::empty());
    }
    let limit = step_limit(total);
    let ghost goal = repaired(lm, initial_state(start), limit as nat);
    let mut step: usize = 0;
    let mut changed = true;
    while step < limit && changed
        invariant
            step <= limit,
            total == links@.len() == lm.len(),
            lm == links_model(links@),
            links_bounded(lm),
            pinned@.len() == total,
            dropped@.len() == total,
            goal == repaired(
                lm,
                (PairState { pinned: flagged(pinned@), dropped: flagged(dropped@) }),
                (limit - step) as nat,
            ),
            !changed ==> goal == (PairState {
                pinned: flagged(pinned@),
                dropped: flagged(dropped@),
            }) && exists|k: nat|
                k < limit && is_at_rest(lm, #[trigger] repaired(lm, initial_state(start), k)),
            changed ==> repaired(lm, initial_state(start), step as nat) == (PairState {
                pinned: flagged(pinned@),
                dropped: flagged(dropped@),
            }),
            changed ==> forall|k: nat|
                k < step ==> !is_at_rest(lm, #[trigger] repaired(lm, initial_state(start), k)),
        decreases limit - step,
    {
        let ghost state = PairState { pinned: flagged(pinned@), dropped: flagged(dropped@) };
        let (next_pinned, next_dropped, moved) = make_step(&links, &pinned, &dropped);
        proof {
            assert(repaired(lm, initial_state(start), step as nat) == state);
            if moved {
                reveal_with_fuel(repaired, 2);
                lemma_steps_add(lm, initial_state(start), step as nat, 1);
            } else {
                lemma_at_rest(lm, state, (limit - step) as nat);
                assert(is_at_rest(lm, state));
            }
        }
        pinned = next_pinned;
        dropped = next_dropped;
        changed = moved;
        step += 1;
    }
    (pinned, !changed)
}

/// Keeps tool calls and their results together: a pinned message whose
/// counterpart does not exist is unpinned, and the counterparts of the others
/// are pinned, until nothing changes or the step limit is reached.
pub fn enforce_tool_call_pairs(messages: &[Message], pinned_indices: &mut BTreeSet<usize>)
    requires
        forall|i: usize| old(pinned_indices)@.contains(i) ==> i < messages@.len(),
    ensures
        indices(final(pinned_indices)@) == paired_pins(
            conversation(messages@),
            indices(old(pinned_indices)@),
        ),
        forall|i: usize| final(pinned_indices)@.contains(i) ==> i < messages@.len(),
{
    let total: usize = messages.len();
    let (pinned, _) = run_repair(messages, pinned_indices);
    let ghost outside = pinned_indices@;
    let mut i: usize = 0;
    while i < total
        invariant
            i <= total,
            pinned@.len() == total,
            forall|j: usize| j < i ==> (#[trigger] pinned_indices@.contains(j) == pinned@[j as int]),
            forall|j: usize| j >= i ==> (#[trigger] pinned_indices@.contains(j) == outside.contains(j)),
        decreases total - i,
    {
        if pinned[i] {
            pinned_indices.insert(i);
        } else {
            pinned_indices.remove(&i);
        }
        i += 1;
    }
    proof {
        assert(indices(pinned_indices@) =~= flagged(pinned@));
    }
}

/// Whether one of the repair steps for these pins changes nothing.
pub fn tool_call_pairs_settle(messages: &[Message], pinned_indices: &BTreeSet<usize>) -> (res: bool)
    requires
        forall|i: usize| pinned_indices@.contains(i) ==> i < messages@.len(),
    ensures
        res == repair_settles(conversation(messages@), indices(pinned_indices@)),
{
    let (_, settled) = run_repair(messages, pinned_indices);
    settled
}

} // verus!
