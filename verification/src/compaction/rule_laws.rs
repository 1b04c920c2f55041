//! When a conversation is compacted, told from the estimates of its messages.

use vstd::prelude::*;

use crate::compaction::estimate_laws::without_reasoning;
use crate::compaction::estimation::{
    blocks_tokens, conversation_tokens, has_tool_use, lemma_blocks_tokens_nonnegative,
    message_tokens,
};
use crate::compaction::planning::{plan_pins, unpinned};
use crate::compaction::rules::{
    compaction_due, exceeds_threshold, reaches_floor, tokens_in, CompactionConfig,
};
use crate::models::{BlockModel, MessageModel};
use crate::paths::Workspace;

verus! {

/// A conversation without its reasoning.
pub open spec fn spoken(messages: Seq<MessageModel>) -> Seq<MessageModel> {
    messages.map_values(|m: MessageModel| without_reasoning(m))
}

/// Six of the first `n` messages that are not kept, in order.
pub open spec fn six_left(list: Seq<int>, n: int, kept: Set<int>) -> bool {
    &&& list.len() == 6
    &&& forall|a: int| 0 <= a < 6 ==> 0 <= #[trigger] list[a] < n && !kept.contains(list[a])
    &&& forall|a: int, b: int| 0 <= a < b < 6 ==> list[a] < list[b]
}

proof fn lemma_nothing_thought(blocks: Seq<BlockModel>, thinking: bool)
    requires
        forall|k: int| 0 <= k < blocks.len() ==> !((#[trigger] blocks[k]) is Thinking),
    ensures
        blocks_tokens(blocks, thinking) == blocks_tokens(blocks, false),
    decreases blocks.len(),
{
    if blocks.len() > 0 {
        assert(!(blocks[blocks.len() - 1] is Thinking));
        lemma_nothing_thought(blocks.drop_last(), thinking);
    }
}

spec fn said_blocks(blocks: Seq<BlockModel>) -> Seq<BlockModel> {
    blocks.filter(|b: BlockModel| !(b is Thinking))
}

proof fn lemma_filtered(blocks: Seq<BlockModel>)
    ensures
        blocks_tokens(said_blocks(blocks), false) == blocks_tokens(blocks, false),
        forall|k: int|
            0 <= k < said_blocks(blocks).len() ==> !((#[trigger] said_blocks(blocks)[k])
                is Thinking),
    decreases blocks.len(),
{
    reveal(Seq::filter);
    if blocks.len() > 0 {
        lemma_filtered(blocks.drop_last());
        let rest = said_blocks(blocks.drop_last());
        if !(blocks.last() is Thinking) {
            assert(said_blocks(blocks) == rest.push(blocks.last()));
            assert(rest.push(blocks.last()).drop_last() =~= rest);
        } else {
            assert(said_blocks(blocks) == rest);
        }
    }
}

proof fn lemma_spoken_message(message: MessageModel)
    ensures
        message_tokens(message, false) == message_tokens(
            without_reasoning(message),
            has_tool_use(without_reasoning(message)),
        ),
{
    lemma_filtered(message.content);
    assert(without_reasoning(message).content == said_blocks(message.content));
    lemma_nothing_thought(
        without_reasoning(message).content,
        has_tool_use(without_reasoning(message)),
    );
}

proof fn lemma_all_tokens(messages: Seq<MessageModel>, n: int)
    requires
        0 <= n <= messages.len(),
    ensures
        tokens_in(messages, Set::full(), n) == conversation_tokens(spoken(messages.take(n))),
    decreases n,
{
    if n > 0 {
        lemma_all_tokens(messages, n - 1);
        let list = spoken(messages.take(n));
        assert(list.drop_last() =~= spoken(messages.take(n - 1)));
        assert(list.last() == without_reasoning(messages[n - 1]));
        lemma_spoken_message(messages[n - 1]);
    } else {
        assert(spoken(messages.take(0)).len() == 0);
    }
}

/// The floor and the threshold are held against what was said: reasoning does
/// not count, whether or not it is sent back.
pub proof fn triggers_count_what_was_said(messages: Seq<MessageModel>)
    ensures
        tokens_in(messages, Set::full(), messages.len() as int) == conversation_tokens(
            spoken(messages),
        ),
{
    assert(messages.take(messages.len() as int) =~= messages);
    lemma_all_tokens(messages, messages.len() as int);
}

proof fn lemma_parts(messages: Seq<MessageModel>, kept: Set<int>, n: int)
    ensures
        tokens_in(messages, kept, n) + tokens_in(messages, kept.complement(), n) == tokens_in(
            messages,
            Set::full(),
            n,
        ),
        tokens_in(messages, kept, n) >= 0,
        tokens_in(messages, kept.complement(), n) >= 0,
    decreases n,
{
    if n > 0 {
        lemma_parts(messages, kept, n - 1);
        lemma_blocks_tokens_nonnegative(messages[n - 1].content, false);
    }
}

/// What is kept and what is summarized add up to the whole conversation.
pub proof fn kept_and_summarized_add_up(messages: Seq<MessageModel>, kept: Set<int>)
    ensures
        tokens_in(messages, kept, messages.len() as int) + tokens_in(
            messages,
            kept.complement(),
            messages.len() as int,
        ) == conversation_tokens(spoken(messages)),
{
    lemma_parts(messages, kept, messages.len() as int);
    triggers_count_what_was_said(messages);
}

/// Keeping one more message adds what was said in it.
pub proof fn kept_messages_count_one_by_one(messages: Seq<MessageModel>, kept: Set<int>, i: int)
    requires
        0 <= i < messages.len(),
        !kept.contains(i),
    ensures
        tokens_in(messages, Set::empty(), messages.len() as int) == 0,
        tokens_in(messages, kept.insert(i), messages.len() as int) == tokens_in(
            messages,
            kept,
            messages.len() as int,
        ) + conversation_tokens(seq![without_reasoning(messages[i])]),
{
    let one = seq![without_reasoning(messages[i])];
    assert(one.drop_last() =~= Seq::empty());
    assert(conversation_tokens(one.drop_last()) == 0);
    lemma_spoken_message(messages[i]);
    lemma_one_more(messages, kept, i, messages.len() as int);
    lemma_none(messages, messages.len() as int);
}

proof fn lemma_none(messages: Seq<MessageModel>, n: int)
    ensures
        tokens_in(messages, Set::empty(), n) == 0,
    decreases n,
{
    if n > 0 {
        lemma_none(messages, n - 1);
    }
}

proof fn lemma_one_more(messages: Seq<MessageModel>, kept: Set<int>, i: int, n: int)
    requires
        0 <= i,
        !kept.contains(i),
    ensures
        tokens_in(messages, kept.insert(i), n) == tokens_in(messages, kept, n) + if i < n {
            message_tokens(messages[i], false)
        } else {
            0
        },
    decreases n,
{
    if n > 0 {
        lemma_one_more(messages, kept, i, n - 1);
    }
}

proof fn lemma_left(kept: Set<int>, n: int)
    ensures
        forall|a: int|
            0 <= a < unpinned(kept, n).len() ==> 0 <= #[trigger] unpinned(kept, n)[a] < n
                && !kept.contains(unpinned(kept, n)[a]),
        forall|a: int, b: int|
            0 <= a < b < unpinned(kept, n).len() ==> unpinned(kept, n)[a] < unpinned(kept, n)[b],
    decreases n,
{
    let all = unpinned(kept, n);
    if n > 0 {
        lemma_left(kept, n - 1);
        let rest = unpinned(kept, n - 1);
        if kept.contains(n - 1) {
            assert(all == rest);
        } else {
            assert(all == rest.push(n - 1));
        }
        assert forall|a: int| 0 <= a < all.len() implies 0 <= #[trigger] all[a] < n
            && !kept.contains(all[a]) by {
            if a < rest.len() {
                assert(all[a] == rest[a]);
            }
        }
        assert forall|a: int, b: int| 0 <= a < b < all.len() implies all[a] < all[b] by {
            assert(all[a] == rest[a]);
            if b < rest.len() {
                assert(all[b] == rest[b]);
            }
        }
    }
}

proof fn lemma_left_all(kept: Set<int>, n: int, list: Seq<int>)
    requires
        forall|a: int|
            0 <= a < list.len() ==> 0 <= #[trigger] list[a] < n && !kept.contains(list[a]),
        forall|a: int, b: int| 0 <= a < b < list.len() ==> list[a] < list[b],
    ensures
        unpinned(kept, n).len() >= list.len(),
    decreases n,
{
    if n > 0 && list.len() > 0 {
        let last = list.len() - 1;
        if list[last] == n - 1 {
            let front = list.drop_last();
            assert forall|a: int| 0 <= a < front.len() implies 0 <= #[trigger] front[a] < n - 1
                && !kept.contains(front[a]) by {
                assert(front[a] == list[a]);
                assert(list[a] < list[last]);
            }
            lemma_left_all(kept, n - 1, front);
        } else {
            assert forall|a: int| 0 <= a < list.len() implies 0 <= #[trigger] list[a] < n - 1
                && !kept.contains(list[a]) by {
                if a < last {
                    assert(list[a] < list[last]);
                }
            }
            lemma_left_all(kept, n - 1, list);
        }
    } else if list.len() > 0 {
        assert(0 <= list[0] < n);
    }
}

/// A conversation is compacted exactly where that is enabled; where it holds at
/// least as many tokens as the floor; where at least six messages would be
/// summarized; and where the messages that would be kept fill the threshold, or
/// all messages together exceed it.
pub proof fn compaction_is_due_by_these_rules(
    messages: Seq<MessageModel>,
    config: CompactionConfig,
    workspace: Option<&Workspace>,
    pins: Seq<usize>,
    paths: Seq<Seq<char>>,
)
    requires
        conversation_tokens(spoken(messages)) <= usize::MAX,
    ensures
        ({
            let n = messages.len() as int;
            let kept = plan_pins(messages, workspace, 4, pins, paths);
            let total = conversation_tokens(spoken(messages));
            compaction_due(messages, config, workspace, pins, paths) == {
                &&& config.enabled
                &&& total >= config.auto_floor_tokens
                &&& exists|list: Seq<int>| #[trigger] six_left(list, n, kept)
                &&& tokens_in(messages, kept, n) >= config.token_threshold || total
                    > config.token_threshold
            }
        }),
{
    let n = messages.len() as int;
    let kept = plan_pins(messages, workspace, 4, pins, paths);
    lemma_parts(messages, kept, n);
    triggers_count_what_was_said(messages);
    lemma_left(kept, n);
    let left = unpinned(kept, n);
    if left.len() >= 6 {
        assert(six_left(left.take(6), n, kept));
    }
    if exists|list: Seq<int>| #[trigger] six_left(list, n, kept) {
        let list = choose|list: Seq<int>| #[trigger] six_left(list, n, kept);
        lemma_left_all(kept, n, list);
    }
}

/// Conversations of fewer than six messages are never compacted.
pub proof fn short_conversations_are_left_alone(
    messages: Seq<MessageModel>,
    config: CompactionConfig,
    workspace: Option<&Workspace>,
    pins: Seq<usize>,
    paths: Seq<Seq<char>>,
)
    requires
        messages.len() < 6,
    ensures
        !compaction_due(messages, config, workspace, pins, paths),
{
    let n = messages.len() as int;
    let kept = plan_pins(messages, workspace, 4, pins, paths);
    lemma_left(kept, n);
    let left = unpinned(kept, n);
    lemma_increasing_is_short(left, n);
}

proof fn lemma_increasing_is_short(list: Seq<int>, n: int)
    requires
        n >= 0,
        forall|a: int| 0 <= a < list.len() ==> 0 <= #[trigger] list[a] < n,
        forall|a: int, b: int| 0 <= a < b < list.len() ==> list[a] < list[b],
    ensures
        list.len() <= n,
    decreases n,
{
    if list.len() > 0 {
        let front = list.drop_last();
        let last = list.len() - 1;
        assert(0 <= list[last] < n);
        assert forall|a: int| 0 <= a < front.len() implies 0 <= #[trigger] front[a] < n - 1 by {
            assert(front[a] == list[a] && list[a] < list[last]);
        }
        lemma_increasing_is_short(front, n - 1);
    }
}

/// A higher threshold and a higher floor never make a conversation due.
pub proof fn higher_limits_delay_compaction(
    messages: Seq<MessageModel>,
    config: CompactionConfig,
    higher: CompactionConfig,
    workspace: Option<&Workspace>,
    pins: Seq<usize>,
    paths: Seq<Seq<char>>,
)
    requires
        higher.enabled == config.enabled,
        higher.token_threshold >= config.token_threshold,
        higher.auto_floor_tokens >= config.auto_floor_tokens,
        compaction_due(messages, higher, workspace, pins, paths),
    ensures
        compaction_due(messages, config, workspace, pins, paths),
{
    let n = messages.len() as int;
    let kept = plan_pins(messages, workspace, 4, pins, paths);
    lemma_parts(messages, kept, n);
    assert(reaches_floor(messages, config));
    assert(exceeds_threshold(messages, config, kept));
}

} // verus!
