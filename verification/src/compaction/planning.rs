//! Which messages a compaction keeps and which it summarizes.

use std::collections::BTreeSet;

use vstd::prelude::*;

use crate::compaction::extraction::{extract_paths_from_message, message_paths, with_new};
use crate::compaction::pairing::{
    complete_conversations_keep_pins, conversation_links, enforce_tool_call_pairs, indices,
    is_complete, paired_pins, plain_pins_are_kept, repair_settles, tool_call_pairs_settle,
};
use crate::json::{json_text, json_to_string};
use crate::models::{
    block_models, conversation, BlockModel, ContentBlock, Message, MessageModel,
};
use crate::paths::{normalize_path_candidate, workspace_path, Workspace};
use crate::text::{
    chars_contain, contains_text, list_has, texts, to_chars, to_lowercase, unicode_lowercase,
};

verus! {

/// How many of the latest messages are searched for working-set paths.
pub const RECENT_WORKING_SET_WINDOW: usize = 12;

/// How many paths a working set holds at most.
pub const MAX_WORKING_SET_PATHS: usize = 24;

/// The messages a compaction keeps, and those it summarizes in order.
#[derive(Debug, Clone)]
pub struct CompactionPlan {
    pub pinned_indices: BTreeSet<usize>,
    pub summarize_indices: Vec<usize>,
}

impl Default for CompactionPlan {
    fn default() -> (res: Self)
        ensures
            res.pinned_indices@ == Set::<usize>::empty(),
            res.summarize_indices@ == Seq::<usize>::empty(),
    {
        CompactionPlan { pinned_indices: BTreeSet::new(), summarize_indices: Vec::new() }
    }
}

// ---------------------------------------------------------------------------
// Message text
// ---------------------------------------------------------------------------

/// The text of one block as the pinning rules read it.
pub open spec fn block_text(block: BlockModel) -> Seq<char> {
    match block {
        BlockModel::Text { text, .. } => text + "\n"@,
        BlockModel::ToolUse { name, input, .. } => "[tool_use:"@ + name + "] "@ + json_text(input)
            + "\n"@,
        BlockModel::ToolResult { content, .. } => content + "\n"@,
        _ => Seq::empty(),
    }
}

/// The text of a list of blocks.
pub open spec fn blocks_text(blocks: Seq<BlockModel>) -> Seq<char>
    decreases blocks.len(),
{
    if blocks.len() == 0 {
        Seq::empty()
    } else {
        blocks_text(blocks.drop_last()) + block_text(blocks.last())
    }
}

/// The text of a message as the pinning rules read it.
pub fn message_text(msg: &Message) -> (res: String)
    ensures
        res@ == blocks_text(msg@.content),
{
    let ghost models = block_models(msg.content@);
    let mut text = String::new();
    let mut i: usize = 0;
    proof { assert(models.take(0) =~= Seq::empty()); }
    while i < msg.content.len()
        invariant
            i <= msg.content@.len() == models.len(),
            models == block_models(msg.content@),
            text@ == blocks_text(models.take(i as int)),
        decreases msg.content@.len() - i,
    {
        let ghost before = text@;
        match &msg.content[i] {
            ContentBlock::Text { text: t, .. } => {
                text.append(t.as_str());
                text.append("\n");
            },
            ContentBlock::ToolUse { name, input, .. } => {
                text.append("[tool_use:");
                text.append(name.as_str());
                text.append("] ");
                let json = json_to_string(input);
                text.append(json.as_str());
                text.append("\n");
            },
            ContentBlock::ToolResult { content, .. } => {
                text.append(content.as_str());
                text.append("\n");
            },
            _ => {},
        }
        proof {
            assert(models.take(i + 1).drop_last() =~= models.take(i as int));
            assert(text@ =~= before + block_text(models[i as int]));
        }
        i += 1;
    }
    proof { assert(models.take(i as int) =~= models); }
    text
}

// ---------------------------------------------------------------------------
// Working set
// ---------------------------------------------------------------------------

/// The paths of the seed messages among the first `n`, latest message first.
pub open spec fn seed_paths(
    messages: Seq<MessageModel>,
    workspace: Option<&Workspace>,
    seeds: Seq<usize>,
    n: int,
) -> Seq<Seq<char>>
    decreases n,
{
    if n <= 0 {
        Seq::empty()
    } else if seeds.contains((n - 1) as usize) {
        message_paths(messages[n - 1], workspace) + seed_paths(messages, workspace, seeds, n - 1)
    } else {
        seed_paths(messages, workspace, seeds, n - 1)
    }
}

/// The paths of the last `k` of the first `n` messages, latest message first.
pub open spec fn recent_paths(
    messages: Seq<MessageModel>,
    workspace: Option<&Workspace>,
    n: int,
    k: int,
) -> Seq<Seq<char>>
    decreases n,
{
    if n <= 0 || k <= 0 {
        Seq::empty()
    } else {
        message_paths(messages[n - 1], workspace) + recent_paths(
            messages,
            workspace,
            n - 1,
            k - 1,
        )
    }
}

/// `list` and the new ones among `items`, until `cap` are held.
pub open spec fn collect_new(list: Seq<Seq<char>>, items: Seq<Seq<char>>, cap: int) -> Seq<Seq<char>>
    decreases items.len(),
{
    if items.len() == 0 || list.len() >= cap {
        list
    } else {
        collect_new(with_new(list, items[0]), items.skip(1), cap)
    }
}

/// The working set of a conversation: the paths of the seed messages, then
/// those of the latest messages, each once, up to a limit.
pub open spec fn working_set(
    messages: Seq<MessageModel>,
    workspace: Option<&Workspace>,
    seeds: Seq<usize>,
) -> Seq<Seq<char>> {
    let n = messages.len() as int;
    collect_new(
        Seq::empty(),
        seed_paths(messages, workspace, seeds, n) + recent_paths(
            messages,
            workspace,
            n,
            RECENT_WORKING_SET_WINDOW as int,
        ),
        MAX_WORKING_SET_PATHS as int,
    )
}

proof fn lemma_collect_full(list: Seq<Seq<char>>, items: Seq<Seq<char>>, cap: int)
    requires
        list.len() >= cap,
    ensures
        collect_new(list, items, cap) == list,
{
}

proof fn lemma_collect_concat(list: Seq<Seq<char>>, a: Seq<Seq<char>>, b: Seq<Seq<char>>, cap: int)
    ensures
        collect_new(list, a + b, cap) == collect_new(collect_new(list, a, cap), b, cap),
    decreases a.len(),
{
    if a.len() == 0 {
        assert(a + b =~= b);
    } else if list.len() < cap {
        assert((a + b).skip(1) =~= a.skip(1) + b);
        lemma_collect_concat(with_new(list, a[0]), a.skip(1), b, cap);
    }
}

/// A working set holds no path twice and no more paths than its limit.
pub proof fn working_set_is_bounded(
    messages: Seq<MessageModel>,
    workspace: Option<&Workspace>,
    seeds: Seq<usize>,
)
    ensures
        working_set(messages, workspace, seeds).no_duplicates(),
        working_set(messages, workspace, seeds).len() <= MAX_WORKING_SET_PATHS,
{
    let n = messages.len() as int;
    lemma_collect_bounded(
        Seq::empty(),
        seed_paths(messages, workspace, seeds, n) + recent_paths(
            messages,
            workspace,
            n,
            RECENT_WORKING_SET_WINDOW as int,
        ),
        MAX_WORKING_SET_PATHS as int,
    );
}

proof fn lemma_collect_bounded(list: Seq<Seq<char>>, items: Seq<Seq<char>>, cap: int)
    requires
        list.no_duplicates(),
        list.len() <= cap,
    ensures
        collect_new(list, items, cap).no_duplicates(),
        collect_new(list, items, cap).len() <= cap,
    decreases items.len(),
{
    if items.len() > 0 && list.len() < cap {
        lemma_collect_bounded(with_new(list, items[0]), items.skip(1), cap);
    }
}

fn add_paths(list: &mut Vec<String>, items: Vec<String>)
    ensures
        texts(final(list)@) == collect_new(
            texts(old(list)@),
            texts(items@),
            MAX_WORKING_SET_PATHS as int,
        ),
{
    let ghost all = texts(items@);
    let ghost start = texts(list@);
    let cap: usize = MAX_WORKING_SET_PATHS;
    let mut i: usize = 0;
    proof { assert(all.skip(0) =~= all); }
    while i < items.len()
        invariant
            i <= items@.len() == all.len(),
            all == texts(items@),
            start == texts(old(list)@),
            cap == MAX_WORKING_SET_PATHS,
            collect_new(start, all, cap as int) == collect_new(
                texts(list@),
                all.skip(i as int),
                cap as int,
            ),
        decreases items@.len() - i,
    {
        if list.len() >= cap {
            proof { lemma_collect_full(texts(list@), all.skip(i as int), cap as int); }
            return;
        }
        proof {
            assert(all.skip(i as int)[0] == items@[i as int]@);
            assert(all.skip(i as int).skip(1) =~= all.skip(i + 1));
        }
        if !list_has(list, items[i].as_str()) {
            let item = items[i].clone();
            let ghost before = list@;
            list.push(item);
            proof { assert(texts(list@) =~= texts(before).push(item@)); }
        }
        i += 1;
    }
}

fn has_index(list: &[usize], idx: usize) -> (res: bool)
    ensures
        res == list@.contains(idx),
{
    let mut i: usize = 0;
    while i < list.len()
        invariant
            i <= list@.len(),
            forall|j: int| 0 <= j < i ==> list@[j] != idx,
        decreases list@.len() - i,
    {
        if list[i] == idx {
            return true;
        }
        i += 1;
    }
    false
}

/// The working set of a conversation.
pub fn derive_working_set_paths(
    messages: &[Message],
    workspace: Option<&Workspace>,
    seed_indices: &[usize],
) -> (res: Vec<String>)
    ensures
        texts(res@) == working_set(conversation(messages@), workspace, seed_indices@),
{
    let ghost models = conversation(messages@);
    let ghost seeds = seed_paths(models, workspace, seed_indices@, models.len() as int);
    let ghost recent = recent_paths(
        models,
        workspace,
        models.len() as int,
        RECENT_WORKING_SET_WINDOW as int,
    );
    let ghost cap = MAX_WORKING_SET_PATHS as int;
    let mut paths: Vec<String> = Vec::new();
    proof { assert(texts(paths@) =~= Seq::empty()); }
    let mut n: usize = messages.len();
    while n > 0
        invariant
            n <= messages@.len() == models.len(),
            models == conversation(messages@),
            cap == MAX_WORKING_SET_PATHS as int,
            collect_new(Seq::empty(), seeds, cap) == collect_new(
                texts(paths@),
                seed_paths(models, workspace, seed_indices@, n as int),
                cap,
            ),
        decreases n,
    {
        if paths.len() < MAX_WORKING_SET_PATHS && has_index(seed_indices, n - 1) {
            proof {
                assert(models[n - 1] == messages@[n - 1]@);
                lemma_collect_concat(
                    texts(paths@),
                    message_paths(models[n - 1], workspace),
                    seed_paths(models, workspace, seed_indices@, n - 1),
                    cap,
                );
            }
            let found = extract_paths_from_message(&messages[n - 1], workspace);
            add_paths(&mut paths, found);
        } else {
            proof {
                if paths@.len() >= MAX_WORKING_SET_PATHS {
                    lemma_collect_full(
                        texts(paths@),
                        seed_paths(models, workspace, seed_indices@, n as int),
                        cap,
                    );
                    lemma_collect_full(
                        texts(paths@),
                        seed_paths(models, workspace, seed_indices@, n - 1),
                        cap,
                    );
                }
            }
        }
        n -= 1;
    }
    proof {
        assert(texts(paths@) == collect_new(Seq::empty(), seeds, cap));
        lemma_collect_concat(Seq::empty(), seeds, recent, cap);
    }
    let mut n: usize = messages.len();
    let mut k: usize = RECENT_WORKING_SET_WINDOW;
    while n > 0 && k > 0 && paths.len() < MAX_WORKING_SET_PATHS
        invariant
            n <= messages@.len() == models.len(),
            models == conversation(messages@),
            cap == MAX_WORKING_SET_PATHS as int,
            collect_new(collect_new(Seq::empty(), seeds, cap), recent, cap) == collect_new(
                texts(paths@),
                recent_paths(models, workspace, n as int, k as int),
                cap,
            ),
        decreases n,
    {
        proof {
            assert(models[n - 1] == messages@[n - 1]@);
            lemma_collect_concat(
                texts(paths@),
                message_paths(models[n - 1], workspace),
                recent_paths(models, workspace, n - 1, k - 1),
                cap,
            );
        }
        let found = extract_paths_from_message(&messages[n - 1], workspace);
        add_paths(&mut paths, found);
        n -= 1;
        k -= 1;
    }
    proof {
        assert(texts(paths@) == collect_new(
            texts(paths@),
            recent_paths(models, workspace, n as int, k as int),
            cap,
        ));
    }
    paths
}

// ---------------------------------------------------------------------------
// Pinning
// ---------------------------------------------------------------------------

/// One of `paths` occurs in the text.
pub open spec fn mentions_path(text: Seq<char>, paths: Seq<Seq<char>>) -> bool {
    exists|k: int| 0 <= k < paths.len() && contains_text(text, #[trigger] paths[k])
}

/// A lowercase text reports a failure.
pub open spec fn mentions_error(lower: Seq<char>) -> bool {
    ||| contains_text(lower, "error:"@)
    ||| contains_text(lower, "error "@)
    ||| contains_text(lower, "failed"@)
    ||| contains_text(lower, "panic"@)
    ||| contains_text(lower, "traceback"@)
    ||| contains_text(lower, "stack trace"@)
    ||| contains_text(lower, "assertion failed"@)
    ||| contains_text(lower, "test failed"@)
}

/// A lowercase text holds a patch.
pub open spec fn mentions_patch(lower: Seq<char>) -> bool {
    ||| contains_text(lower, "diff --git"@)
    ||| contains_text(lower, "+++ b/"@)
    ||| contains_text(lower, "--- a/"@)
    ||| contains_text(lower, "*** begin patch"@)
    ||| contains_text(lower, "*** update file:"@)
    ||| contains_text(lower, "*** add file:"@)
    ||| contains_text(lower, "*** delete file:"@)
    ||| contains_text(lower, "```diff"@)
    ||| contains_text(lower, "apply_patch"@)
}

/// A text is worth keeping verbatim: it mentions a working-set path, a failure
/// or a patch.
pub open spec fn is_pin_worthy(text: Seq<char>, paths: Seq<Seq<char>>) -> bool {
    let lower = unicode_lowercase(text);
    mentions_path(text, paths) || mentions_error(lower) || mentions_patch(lower)
}

fn lower_has(lower: &Vec<char>, marker: &str) -> (res: bool)
    ensures
        res == contains_text(lower@, marker@),
{
    chars_contain(lower, &to_chars(marker))
}

/// Whether a message with this text is kept verbatim.
pub fn should_pin_message(text: &str, working_set_paths: &Vec<String>) -> (res: bool)
    ensures
        res == is_pin_worthy(text@, texts(working_set_paths@)),
{
    let chars = to_chars(text);
    let mut i: usize = 0;
    while i < working_set_paths.len()
        invariant
            i <= working_set_paths@.len(),
            chars@ == text@,
            forall|k: int|
                0 <= k < i ==> !contains_text(text@, #[trigger] texts(working_set_paths@)[k]),
        decreases working_set_paths@.len() - i,
    {
        let path = to_chars(working_set_paths[i].as_str());
        if chars_contain(&chars, &path) {
            proof { assert(contains_text(text@, texts(working_set_paths@)[i as int])); }
            return true;
        }
        i += 1;
    }
    has_pin_marker(to_lowercase(text).as_str())
}

/// Whether a lowercase text reports a failure or holds a patch.
pub fn has_pin_marker(lower: &str) -> (res: bool)
    ensures
        res == (mentions_error(lower@) || mentions_patch(lower@)),
{
    let lower = to_chars(lower);
    let error = lower_has(&lower, "error:") || lower_has(&lower, "error ") || lower_has(
        &lower,
        "failed",
    ) || lower_has(&lower, "panic") || lower_has(&lower, "traceback") || lower_has(
        &lower,
        "stack trace",
    ) || lower_has(&lower, "assertion failed") || lower_has(&lower, "test failed");
    if error {
        return true;
    }
    lower_has(&lower, "diff --git") || lower_has(&lower, "+++ b/") || lower_has(&lower, "--- a/")
        || lower_has(&lower, "*** begin patch") || lower_has(&lower, "*** update file:")
        || lower_has(&lower, "*** add file:") || lower_has(&lower, "*** delete file:")
        || lower_has(&lower, "```diff") || lower_has(&lower, "apply_patch")
}

// ---------------------------------------------------------------------------
// Plans
// ---------------------------------------------------------------------------

/// The pins given by the caller.
pub open spec fn pin_list(pins: Option<&[usize]>) -> Seq<usize> {
    match pins {
        Some(pins) => pins@,
        None => Seq::empty(),
    }
}

/// The paths given by the caller.
pub open spec fn path_list(paths: Option<&[String]>) -> Seq<Seq<char>> {
    match paths {
        Some(paths) => texts(paths@),
        None => Seq::empty(),
    }
}

/// `list` and the normalized ones among `paths`.
pub open spec fn with_normalized(
    list: Seq<Seq<char>>,
    paths: Seq<Seq<char>>,
    workspace: Option<&Workspace>,
) -> Seq<Seq<char>>
    decreases paths.len(),
{
    if paths.len() == 0 {
        list
    } else {
        let rest = with_normalized(list, paths.drop_last(), workspace);
        match workspace_path(paths.last(), workspace) {
            Some(path) => with_new(rest, path),
            None => rest,
        }
    }
}

/// The working set that a plan is made with.
pub open spec fn plan_paths(
    messages: Seq<MessageModel>,
    workspace: Option<&Workspace>,
    pins: Seq<usize>,
    paths: Seq<Seq<char>>,
) -> Seq<Seq<char>> {
    with_normalized(working_set(messages, workspace, pins), paths, workspace)
}

/// Message `i` is pinned on its own account: it is recent, worth keeping, or
/// pinned by the caller.
pub open spec fn is_pinned(
    messages: Seq<MessageModel>,
    workspace: Option<&Workspace>,
    keep_recent: int,
    pins: Seq<usize>,
    paths: Seq<Seq<char>>,
    i: int,
) -> bool {
    ||| i >= messages.len() - keep_recent
    ||| is_pin_worthy(
        blocks_text(messages[i].content),
        plan_paths(messages, workspace, pins, paths),
    )
    ||| pins.contains(i as usize)
}

/// The messages pinned on their own account.
pub open spec fn own_pins(
    messages: Seq<MessageModel>,
    workspace: Option<&Workspace>,
    keep_recent: int,
    pins: Seq<usize>,
    paths: Seq<Seq<char>>,
) -> Set<int> {
    Set::new(
        |i: int|
            0 <= i < messages.len() && is_pinned(messages, workspace, keep_recent, pins, paths, i),
    )
}

/// The messages that a plan keeps: those pinned on their own account, with tool
/// calls and results kept together.
pub open spec fn plan_pins(
    messages: Seq<MessageModel>,
    workspace: Option<&Workspace>,
    keep_recent: int,
    pins: Seq<usize>,
    paths: Seq<Seq<char>>,
) -> Set<int> {
    paired_pins(messages, own_pins(messages, workspace, keep_recent, pins, paths))
}

/// The positions among the first `n` that are not in `pinned`, in order.
pub open spec fn unpinned(pinned: Set<int>, n: int) -> Seq<int>
    decreases n,
{
    if n <= 0 {
        Seq::empty()
    } else if pinned.contains(n - 1) {
        unpinned(pinned, n - 1)
    } else {
        unpinned(pinned, n - 1).push(n - 1)
    }
}

/// A list of machine indices as mathematical integers.
pub open spec fn index_list(list: Seq<usize>) -> Seq<int> {
    list.map_values(|i: usize| i as int)
}

/// Every message is either kept or summarized, never both, and what is
/// summarized stays in order.
pub proof fn plan_is_partition(pinned: Set<int>, n: int, i: int)
    requires
        0 <= i < n,
    ensures
        unpinned(pinned, n).contains(i) != pinned.contains(i),
        forall|a: int, b: int|
            0 <= a < b < unpinned(pinned, n).len() ==> unpinned(pinned, n)[a] < unpinned(
                pinned,
                n,
            )[b],
{
    lemma_unpinned(pinned, n);
    let list = unpinned(pinned, n);
    if list.contains(i) {
        let k = choose|k: int| 0 <= k < list.len() && list[k] == i;
        assert(!pinned.contains(list[k]));
    }
}

pub(crate) proof fn lemma_unpinned(pinned: Set<int>, n: int)
    requires
        0 <= n,
    ensures
        forall|k: int|
            0 <= k < unpinned(pinned, n).len() ==> 0 <= #[trigger] unpinned(pinned, n)[k] < n
                && !pinned.contains(unpinned(pinned, n)[k]),
        forall|a: int, b: int|
            0 <= a < b < unpinned(pinned, n).len() ==> unpinned(pinned, n)[a] < unpinned(
                pinned,
                n,
            )[b],
        forall|i: int|
            0 <= i < n && !pinned.contains(i) ==> #[trigger] unpinned(pinned, n).contains(i),
    decreases n,
{
    if n > 0 {
        lemma_unpinned(pinned, n - 1);
        let before = unpinned(pinned, n - 1);
        let after = unpinned(pinned, n);
        assert forall|i: int| 0 <= i < n && !pinned.contains(i) implies #[trigger] after.contains(
            i,
        ) by {
            if i == n - 1 {
                assert(after[after.len() - 1] == i);
            } else {
                assert(before.contains(i));
                let k = choose|k: int| 0 <= k < before.len() && before[k] == i;
                assert(after[k] == i);
            }
        }
    }
}

/// In a conversation whose tool calls and results are complete, the latest
/// messages and the caller's pins are kept, and so is everything worth keeping.
pub proof fn complete_plans_keep_pins(
    messages: Seq<MessageModel>,
    workspace: Option<&Workspace>,
    keep_recent: int,
    pins: Seq<usize>,
    paths: Seq<Seq<char>>,
    i: int,
)
    requires
        is_complete(messages),
        0 <= i < messages.len(),
        is_pinned(messages, workspace, keep_recent, pins, paths, i),
    ensures
        plan_pins(messages, workspace, keep_recent, pins, paths).contains(i),
{
    let own = own_pins(messages, workspace, keep_recent, pins, paths);
    complete_conversations_keep_pins(messages, own);
    assert(own.contains(i));
}

/// A message without tool calls and results is kept exactly where it is pinned
/// on its own account, in every conversation.
pub proof fn plans_keep_plain_pins(
    messages: Seq<MessageModel>,
    workspace: Option<&Workspace>,
    keep_recent: int,
    pins: Seq<usize>,
    paths: Seq<Seq<char>>,
    i: int,
)
    requires
        0 <= i < messages.len(),
        conversation_links(messages)[i].len() == 0,
    ensures
        plan_pins(messages, workspace, keep_recent, pins, paths).contains(i) == is_pinned(
            messages,
            workspace,
            keep_recent,
            pins,
            paths,
            i,
        ),
{
    plain_pins_are_kept(
        messages,
        own_pins(messages, workspace, keep_recent, pins, paths),
        i,
    );
}

fn add_normalized(list: &mut Vec<String>, paths: Option<&[String]>, workspace: Option<&Workspace>)
    ensures
        texts(final(list)@) == with_normalized(texts(old(list)@), path_list(paths), workspace),
{
    if let Some(paths) = paths {
        let ghost all = texts(paths@);
        let ghost start = texts(list@);
        proof { assert(all.take(0) =~= Seq::empty()); }
        let mut i: usize = 0;
        while i < paths.len()
            invariant
                i <= paths@.len() == all.len(),
                all == texts(paths@),
                texts(list@) == with_normalized(start, all.take(i as int), workspace),
            decreases paths@.len() - i,
        {
            proof { assert(all.take(i + 1).drop_last() =~= all.take(i as int)); }
            if let Some(path) = normalize_path_candidate(paths[i].as_str(), workspace) {
                if !list_has(list, path.as_str()) {
                    let ghost before = list@;
                    list.push(path);
                    proof { assert(texts(list@) =~= texts(before).push(path@)); }
                }
            }
            i += 1;
        }
        proof { assert(all.take(i as int) =~= all); }
    }
}

/// The messages that are pinned on their own account.
fn find_own_pins(
    messages: &[Message],
    workspace: Option<&Workspace>,
    keep_recent: usize,
    external_pins: Option<&[usize]>,
    external_working_set_paths: Option<&[String]>,
) -> (res: BTreeSet<usize>)
    ensures
        indices(res@) == own_pins(
            conversation(messages@),
            workspace,
            keep_recent as int,
            pin_list(external_pins),
            path_list(external_working_set_paths),
        ),
        forall|i: usize| res@.contains(i) ==> i < messages@.len(),
{
    let ghost models = conversation(messages@);
    let ghost pins = pin_list(external_pins);
    let ghost paths = path_list(external_working_set_paths);
    let total: usize = messages.len();
    let recent_start: usize = total.saturating_sub(keep_recent);
    let empty: [usize; 0] = [];
    let seeds: &[usize] = match external_pins {
        Some(pins) => pins,
        None => &empty,
    };
    proof { assert(seeds@ =~= pins); }
    let mut working_set_paths = derive_working_set_paths(messages, workspace, seeds);
    add_normalized(&mut working_set_paths, external_working_set_paths, workspace);
    let mut pinned: BTreeSet<usize> = BTreeSet::new();
    let mut i: usize = 0;
    while i < total
        invariant
            i <= total == messages@.len() == models.len(),
            models == conversation(messages@),
            recent_start == (if total >= keep_recent { total - keep_recent } else { 0 }),
            seeds@ == pins,
            texts(working_set_paths@) == plan_paths(models, workspace, pins, paths),
            forall|j: usize|
                #[trigger] pinned@.contains(j) == (j < i && is_pinned(
                    models,
                    workspace,
                    keep_recent as int,
                    pins,
                    paths,
                    j as int,
                )),
        decreases total - i,
    {
        let mut keep = i >= recent_start || has_index(seeds, i);
        if !keep {
            let text = message_text(&messages[i]);
            keep = should_pin_message(text.as_str(), &working_set_paths);
        }
        if keep {
            pinned.insert(i);
        }
        i += 1;
    }
    proof {
        assert(indices(pinned@) =~= own_pins(models, workspace, keep_recent as int, pins, paths));
    }
    pinned
}

/// Decides which messages are kept and which are summarized. Besides the
/// latest `keep_recent` messages, those are kept that the caller pins, that
/// mention the working set, a failure or a patch, and the counterparts of kept
/// tool calls and results.
pub fn plan_compaction(
    messages: &[Message],
    workspace: Option<&Workspace>,
    keep_recent: usize,
    external_pins: Option<&[usize]>,
    external_working_set_paths: Option<&[String]>,
) -> (res: CompactionPlan)
    ensures
        indices(res.pinned_indices@) == plan_pins(
            conversation(messages@),
            workspace,
            keep_recent as int,
            pin_list(external_pins),
            path_list(external_working_set_paths),
        ),
        index_list(res.summarize_indices@) == unpinned(
            indices(res.pinned_indices@),
            messages@.len() as int,
        ),
        forall|i: usize| res.pinned_indices@.contains(i) ==> i < messages@.len(),
{
    let total: usize = messages.len();
    let mut pinned = find_own_pins(
        messages,
        workspace,
        keep_recent,
        external_pins,
        external_working_set_paths,
    );
    enforce_tool_call_pairs(messages, &mut pinned);
    let ghost kept = indices(pinned@);
    let mut summarize: Vec<usize> = Vec::new();
    let mut i: usize = 0;
    while i < total
        invariant
            i <= total,
            kept == indices(pinned@),
            index_list(summarize@) == unpinned(kept, i as int),
        decreases total - i,
    {
        if !pinned.contains(&i) {
            let ghost before = summarize@;
            summarize.push(i);
            proof { assert(index_list(summarize@) =~= index_list(before).push(i as int)); }
        }
        i += 1;
    }
    CompactionPlan { pinned_indices: pinned, summarize_indices: summarize }
}

/// Whether one of the repair steps for a plan's tool calls and results changes
/// nothing.
pub fn plan_settles(
    messages: &[Message],
    workspace: Option<&Workspace>,
    keep_recent: usize,
    external_pins: Option<&[usize]>,
    external_working_set_paths: Option<&[String]>,
) -> (res: bool)
    ensures
        res == repair_settles(
            conversation(messages@),
            own_pins(
                conversation(messages@),
                workspace,
                keep_recent as int,
                pin_list(external_pins),
                path_list(external_working_set_paths),
            ),
        ),
{
    let pinned = find_own_pins(
        messages,
        workspace,
        keep_recent,
        external_pins,
        external_working_set_paths,
    );
    tool_call_pairs_settle(messages, &pinned)
}

} // verus!
