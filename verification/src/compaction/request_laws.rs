//! What a summary request holds, and what stands in for the summarized messages.

use vstd::prelude::*;

use crate::compaction::estimation::{
    conversation_tokens, estimates_add_up, lemma_conversation_tokens_nonnegative, saturated,
};
use crate::compaction::extraction::{bullet_lines, workflow_facts, workflow_text};
use crate::compaction::rules::{summary_limits, SummaryInputLimits};
use crate::compaction::summary::{
    anchors_in, anchors_section, bounded_transcript, fits_cache_aligned, instruction, merged_prompt,
    messages_in, nonblank_parts, prompt_blocks, summary_prompt_model, summary_request_model,
    summary_text, text_blocks, transcript, transcript_blocks, ANCHOR_HEADING, NEXT_STEPS,
    SUMMARY_HEADING, SUMMARY_INSTRUCTION, WORKFLOW_HEADING,
};
use crate::models::{context_window, BlockModel, MessageModel, SystemBlockModel, SystemPromptModel};
use crate::text::{
    contains_text, decimal, find_text, first_chars, is_whitespace, joined, last_chars,
    lemma_find_text, occurs_at, split_text, trimmed,
};
use crate::text_laws::{joining_undoes_splitting_at_texts, trimming_takes_outer_blanks};

verus! {

// ---------------------------------------------------------------------------
// Texts within texts
// ---------------------------------------------------------------------------

/// A text occurs between any two others.
pub proof fn lemma_contains_middle(before: Seq<char>, text: Seq<char>, behind: Seq<char>)
    ensures
        contains_text(before + text + behind, text),
{
    let all = before + text + behind;
    assert(all.subrange(before.len() as int, (before.len() + text.len()) as int) =~= text);
    assert(occurs_at(all, text, before.len() as int));
}

/// What occurs in a part of a text occurs in the text.
pub proof fn lemma_contains_in_part(
    before: Seq<char>,
    part: Seq<char>,
    behind: Seq<char>,
    text: Seq<char>,
)
    requires
        contains_text(part, text),
    ensures
        contains_text(before + part + behind, text),
{
    let i = choose|i: int| occurs_at(part, text, i);
    let all = before + part + behind;
    let at = before.len() + i;
    assert(all.subrange(at, at + text.len()) =~= part.subrange(i, i + text.len()));
    assert(occurs_at(all, text, at));
}

// ---------------------------------------------------------------------------
// Transcripts
// ---------------------------------------------------------------------------

/// A conversation up to block `k` of message `i`.
pub open spec fn up_to_block(messages: Seq<MessageModel>, i: int, k: int) -> Seq<MessageModel> {
    messages.take(i).push(
        MessageModel { role: messages[i].role, content: messages[i].content.take(k) },
    )
}

/// A conversation behind block `k` of message `i`.
pub open spec fn behind_block(messages: Seq<MessageModel>, i: int, k: int) -> Seq<MessageModel> {
    seq![MessageModel { role: messages[i].role, content: messages[i].content.skip(k + 1) }]
        + messages.skip(i + 1)
}

proof fn lemma_transcripts_join(
    a: Seq<MessageModel>,
    b: Seq<MessageModel>,
    limits: SummaryInputLimits,
)
    ensures
        transcript(a + b, limits) == transcript(a, limits) + transcript(b, limits),
    decreases b.len(),
{
    if b.len() == 0 {
        assert(a + b =~= a);
        assert(transcript(a, limits) + transcript(b, limits) =~= transcript(a, limits));
    } else {
        assert((a + b).drop_last() =~= a + b.drop_last());
        lemma_transcripts_join(a, b.drop_last(), limits);
        let last = transcript_blocks(b.last().role, b.last().content, limits);
        assert((transcript(a, limits) + transcript(b.drop_last(), limits)) + last =~= transcript(
            a,
            limits,
        ) + (transcript(b.drop_last(), limits) + last));
    }
}

proof fn lemma_blocks_join(
    role: Seq<char>,
    a: Seq<BlockModel>,
    b: Seq<BlockModel>,
    limits: SummaryInputLimits,
)
    ensures
        transcript_blocks(role, a + b, limits) == transcript_blocks(role, a, limits)
            + transcript_blocks(role, b, limits),
    decreases b.len(),
{
    if b.len() == 0 {
        assert(a + b =~= a);
        assert(transcript_blocks(role, a, limits) + transcript_blocks(role, b, limits)
            =~= transcript_blocks(role, a, limits));
    } else {
        assert((a + b).drop_last() =~= a + b.drop_last());
        lemma_blocks_join(role, a, b.drop_last(), limits);
        assert(transcript_blocks(role, a + b, limits) =~= transcript_blocks(role, a, limits)
            + transcript_blocks(role, b, limits));
    }
}

proof fn lemma_single(m: MessageModel, limits: SummaryInputLimits)
    ensures
        transcript(seq![m], limits) == transcript_blocks(m.role, m.content, limits),
{
    assert(seq![m].drop_last() =~= Seq::empty());
    assert(transcript(seq![m].drop_last(), limits) =~= Seq::empty());
    assert(transcript(seq![m], limits) =~= transcript_blocks(m.role, m.content, limits));
}

/// Every block of a conversation has its own line in the transcript, behind the
/// lines of the blocks before it: a text and a tool call with their speaker, a
/// tool result without; texts and results are cut to their limits. Other blocks
/// have no line.
pub proof fn every_block_has_its_line(
    messages: Seq<MessageModel>,
    limits: SummaryInputLimits,
    i: int,
    k: int,
)
    requires
        0 <= i < messages.len(),
        0 <= k < messages[i].content.len(),
    ensures
        ({
            let who = if messages[i].role == "user"@ {
                "User"@
            } else {
                "Assistant"@
            };
            let line = match messages[i].content[k] {
                BlockModel::Text { text, .. } => who + ": "@ + first_chars(
                    text,
                    limits.text_snippet_chars as int,
                ) + "\n\n"@,
                BlockModel::ToolUse { name, .. } => who + ": [Used tool: "@ + name + "]\n\n"@,
                BlockModel::ToolResult { content, .. } => "Tool result: "@ + first_chars(
                    content,
                    limits.tool_result_snippet_chars as int,
                ) + "\n\n"@,
                _ => Seq::empty(),
            };
            transcript(messages, limits) == transcript(up_to_block(messages, i, k), limits) + line
                + transcript(behind_block(messages, i, k), limits)
        }),
        transcript(Seq::empty(), limits).len() == 0,
{
    let m = messages[i];
    let head = m.content.take(k);
    let one = seq![m.content[k]];
    let tail = m.content.skip(k + 1);
    assert(m.content =~= head + one + tail);
    lemma_blocks_join(m.role, head + one, tail, limits);
    lemma_blocks_join(m.role, head, one, limits);
    assert(one.drop_last() =~= Seq::empty());
    assert(transcript_blocks(m.role, one.drop_last(), limits) =~= Seq::empty());
    assert(one.last() == m.content[k]);
    let first = MessageModel { role: m.role, content: head };
    let last = MessageModel { role: m.role, content: tail };
    assert(messages =~= messages.take(i) + seq![m] + messages.skip(i + 1));
    lemma_transcripts_join(messages.take(i) + seq![m], messages.skip(i + 1), limits);
    lemma_transcripts_join(messages.take(i), seq![m], limits);
    assert(up_to_block(messages, i, k) =~= messages.take(i) + seq![first]);
    lemma_transcripts_join(messages.take(i), seq![first], limits);
    lemma_transcripts_join(seq![last], messages.skip(i + 1), limits);
    lemma_single(m, limits);
    lemma_single(first, limits);
    lemma_single(last, limits);
    let line = transcript_blocks(m.role, one, limits);
    assert(transcript(messages, limits) =~= transcript(up_to_block(messages, i, k), limits) + line
        + transcript(behind_block(messages, i, k), limits));
    assert(transcript(Seq::<MessageModel>::empty(), limits) =~= Seq::empty());
}

/// A transcript that fits is carried whole. One that does not keeps its head and
/// its tail as they are, and says between them how many characters are missing.
pub proof fn long_transcripts_keep_head_and_tail(text: Seq<char>, limits: SummaryInputLimits)
    requires
        limits.input_head_chars + limits.input_tail_chars <= limits.input_max_chars,
    ensures
        text.len() <= limits.input_max_chars ==> bounded_transcript(text, limits) == text,
        text.len() > limits.input_max_chars ==> ({
            let head = text.take(limits.input_head_chars as int);
            let tail = text.skip(text.len() - limits.input_tail_chars);
            let missing = (text.len() - head.len() - tail.len()) as nat;
            bounded_transcript(text, limits) == head + "\n\n[... "@ + decimal(missing)
                + " characters omitted before summary ...]\n\n"@ + tail
        }),
{
    if text.len() > limits.input_max_chars {
        let head = text.take(limits.input_head_chars as int);
        let tail = text.skip(text.len() - limits.input_tail_chars);
        assert(first_chars(text, limits.input_head_chars as int) =~= head);
        assert(last_chars(text, limits.input_tail_chars as int) =~= tail);
    }
}

/// What the limits of every model leave: head and tail fit, and models with a
/// large window read and write at least as much as the others.
pub proof fn limits_leave_room(model: Seq<char>, other: Seq<char>)
    ensures
        ({
            let l = summary_limits(model);
            &&& l.input_head_chars + l.input_tail_chars <= l.input_max_chars
            &&& l.input_tail_chars > 0 && l.input_head_chars > l.input_tail_chars
            &&& l.text_snippet_chars > 0 && l.tool_result_snippet_chars > 0
        }),
        ({
            let l = summary_limits(model);
            let s = summary_limits(other);
            let large = context_window(model) matches Some(w) && w >= 500_000;
            let small = !(context_window(other) matches Some(w) && w >= 500_000);
            large && small ==> l.text_snippet_chars > s.text_snippet_chars
                && l.tool_result_snippet_chars > s.tool_result_snippet_chars && l.input_max_chars
                > s.input_max_chars && l.max_tokens > s.max_tokens && l.word_limit > s.word_limit
        }),
{
}

// ---------------------------------------------------------------------------
// Requests
// ---------------------------------------------------------------------------

/// A request for a model with a small or unknown window is made of one user
/// message: the instruction, and behind it the transcript within its bounds. It
/// has a system prompt.
pub proof fn small_windows_get_a_transcript(model: Seq<char>, messages: Seq<MessageModel>)
    requires
        !(context_window(model) matches Some(w) && w >= 500_000),
    ensures
        ({
            let request = summary_request_model(model, messages);
            let limits = summary_limits(model);
            &&& request.model == model
            &&& request.messages.len() == 1
            &&& request.messages[0].role == "user"@
            &&& request.messages[0].content.len() == 1
            &&& request.messages[0].content[0] matches BlockModel::Text { text, .. } && text
                == instruction(limits.word_limit as nat) + "\n\n---\n\n"@ + bounded_transcript(
                transcript(messages, limits),
                limits,
            )
            &&& request.system is Some
            &&& request.max_tokens == limits.max_tokens
        }),
{
}

/// Where the conversation fits into the model's large window, the request
/// replays every message as it is and asks for the summary behind them.
pub proof fn large_windows_get_a_replay(model: Seq<char>, messages: Seq<MessageModel>, i: int)
    requires
        context_window(model) matches Some(w) && w >= 500_000 && 100 * (conversation_tokens(
            messages,
        ) + 512) <= 85 * w,
        conversation_tokens(messages) + 512 <= usize::MAX,
        0 <= i < messages.len(),
    ensures
        ({
            let request = summary_request_model(model, messages);
            &&& request.model == model
            &&& request.messages.len() == messages.len() + 1
            &&& request.messages[i] == messages[i]
            &&& request.messages.last().role == "user"@
            &&& request.messages.last().content.len() == 1
            &&& request.messages.last().content[0] matches BlockModel::Text { text, .. } && text
                == instruction(summary_limits(model).word_limit as nat)
            &&& request.system is None
        }),
{
    assert(fits_cache_aligned(model, messages));
}

/// A conversation that fits into the window still fits when messages are taken
/// away from its end, and one that is too long for it is never replayed.
pub proof fn fitting_is_a_matter_of_size(
    model: Seq<char>,
    messages: Seq<MessageModel>,
    more: Seq<MessageModel>,
)
    ensures
        fits_cache_aligned(model, messages + more) ==> fits_cache_aligned(model, messages),
        fits_cache_aligned(model, messages) ==> (context_window(model) matches Some(w)
            && conversation_tokens(messages) < w),
{
    estimates_add_up(messages, more);
    lemma_conversation_tokens_nonnegative(messages);
    lemma_conversation_tokens_nonnegative(more);
    if fits_cache_aligned(model, messages) {
        let w = context_window(model)->0;
        assert(w as int * 85 / 100 < w);
        assert(saturated(conversation_tokens(messages) + 512) == conversation_tokens(messages)
            + 512);
    }
}

/// The instruction names the word limit, and tells two limits apart only there.
pub proof fn instructions_name_the_limit(limit: nat)
    ensures
        instruction(limit) == SUMMARY_INSTRUCTION@ + decimal(limit) + " words."@,
        contains_text(instruction(limit), decimal(limit)),
{
    lemma_contains_middle(SUMMARY_INSTRUCTION@, decimal(limit), " words."@);
}

// ---------------------------------------------------------------------------
// Replies
// ---------------------------------------------------------------------------

/// The texts of a reply are those of its text blocks, in order; other blocks
/// do not count.
pub proof fn replies_are_read_in_order(a: Seq<BlockModel>, block: BlockModel)
    ensures
        block matches BlockModel::Text { text, .. } ==> text_blocks(a.push(block)) == text_blocks(
            a,
        ).push(text),
        !(block is Text) ==> text_blocks(a.push(block)) == text_blocks(a),
        text_blocks(Seq::empty()).len() == 0,
{
    assert(a.push(block).drop_last() =~= a);
}

// ---------------------------------------------------------------------------
// The summary prompt
// ---------------------------------------------------------------------------

/// The prompt that stands in for the summarized messages holds the model's
/// summary and the workflow that was summarized, whole and in this order, under
/// their headings.
pub proof fn summary_prompts_hold_their_parts(
    removed: Seq<MessageModel>,
    summary: Seq<char>,
    anchors: Seq<Seq<char>>,
    cache_summary: bool,
    root: Option<Seq<char>>,
)
    ensures
        ({
            let workflow = workflow_text(workflow_facts(removed), root);
            &&& summary_prompt_model(removed, summary, anchors, cache_summary, root) matches
                SystemPromptModel::Blocks(blocks)
            &&& blocks.len() == 1
            &&& blocks[0].block_type == "text"@
            &&& blocks[0].text == anchors_section(anchors) + SUMMARY_HEADING@ + summary
                + WORKFLOW_HEADING@ + workflow + NEXT_STEPS@
            &&& contains_text(blocks[0].text, summary)
            &&& contains_text(blocks[0].text, workflow)
            &&& blocks[0].cache_control == (if cache_summary {
                Some("ephemeral"@)
            } else {
                None
            })
        }),
{
    let workflow = workflow_text(workflow_facts(removed), root);
    let a = anchors_section(anchors) + SUMMARY_HEADING@;
    let text = summary_text(anchors, summary, workflow);
    assert(text =~= a + summary + (WORKFLOW_HEADING@ + workflow + NEXT_STEPS@));
    lemma_contains_middle(a, summary, WORKFLOW_HEADING@ + workflow + NEXT_STEPS@);
    lemma_contains_middle(a + summary + WORKFLOW_HEADING@, workflow, NEXT_STEPS@);
}

proof fn lemma_bullets_hold(items: Seq<Seq<char>>, i: int)
    requires
        0 <= i < items.len(),
    ensures
        contains_text(bullet_lines(items), "- "@ + items[i] + "\n"@),
    decreases items.len(),
{
    let line = "- "@ + items.last() + "\n"@;
    let rest = bullet_lines(items.drop_last());
    if i == items.len() - 1 {
        lemma_contains_middle(rest, line, Seq::empty());
        assert(rest + line + Seq::<char>::empty() =~= rest + line);
    } else {
        lemma_bullets_hold(items.drop_last(), i);
        lemma_contains_in_part(Seq::empty(), rest, line, "- "@ + items[i] + "\n"@);
        assert(Seq::<char>::empty() + rest + line =~= rest + line);
    }
}

/// Every anchored fact stands in the prompt, on a line of its own.
pub proof fn anchors_survive_compaction(
    removed: Seq<MessageModel>,
    summary: Seq<char>,
    anchors: Seq<Seq<char>>,
    cache_summary: bool,
    root: Option<Seq<char>>,
    i: int,
)
    requires
        0 <= i < anchors.len(),
    ensures
        summary_prompt_model(removed, summary, anchors, cache_summary, root) matches
            SystemPromptModel::Blocks(blocks) && contains_text(
            blocks[0].text,
            "- "@ + anchors[i] + "\n"@,
        ),
{
    let line = "- "@ + anchors[i] + "\n"@;
    let bullets = bullet_lines(anchors);
    lemma_bullets_hold(anchors, i);
    let workflow = workflow_text(workflow_facts(removed), root);
    let behind = "\n---\n\n"@ + SUMMARY_HEADING@ + summary + WORKFLOW_HEADING@ + workflow
        + NEXT_STEPS@;
    lemma_contains_in_part(ANCHOR_HEADING@, bullets, behind, line);
    assert(summary_text(anchors, summary, workflow) =~= ANCHOR_HEADING@ + bullets + behind);
}

/// Without anchors the prompt begins with the summary's heading.
pub proof fn no_anchors_no_section(summary: Seq<char>, workflow: Seq<char>)
    ensures
        summary_text(Seq::empty(), summary, workflow) == SUMMARY_HEADING@ + summary
            + WORKFLOW_HEADING@ + workflow + NEXT_STEPS@,
{
    assert(anchors_section(Seq::empty()) =~= Seq::empty());
    assert(summary_text(Seq::empty(), summary, workflow) =~= SUMMARY_HEADING@ + summary
        + WORKFLOW_HEADING@ + workflow + NEXT_STEPS@);
}

/// Of the parts of an anchors file every one that is not blank is an anchor,
/// without the blanks around it, and they stay in their order.
pub proof fn nonblank_parts_are_anchors(parts: Seq<Seq<char>>, part: Seq<char>)
    ensures
        trimmed(part).len() > 0 ==> nonblank_parts(parts.push(part)) == nonblank_parts(parts).push(
            trimmed(part),
        ),
        trimmed(part).len() == 0 ==> nonblank_parts(parts.push(part)) == nonblank_parts(parts),
        nonblank_parts(Seq::empty()).len() == 0,
{
    assert(parts.push(part).drop_last() =~= parts);
}

// ---------------------------------------------------------------------------
// Kept messages
// ---------------------------------------------------------------------------

/// The places of those of the first `n` messages that are in `set`.
pub open spec fn places_in(set: Set<int>, n: int) -> Seq<int>
    decreases n,
{
    if n <= 0 {
        Seq::empty()
    } else if set.contains(n - 1) {
        places_in(set, n - 1).push(n - 1)
    } else {
        places_in(set, n - 1)
    }
}

/// The messages picked from a conversation are those at the wanted places, in
/// the order of the conversation, and none is missing.
pub proof fn picked_messages_keep_their_order(
    messages: Seq<MessageModel>,
    set: Set<int>,
    n: int,
    i: int,
)
    requires
        0 <= n <= messages.len(),
    ensures
        messages_in(messages, set, n).len() == places_in(set, n).len(),
        forall|k: int|
            0 <= k < places_in(set, n).len() ==> messages_in(messages, set, n)[k] == messages[(
            #[trigger] places_in(set, n)[k])] && set.contains(places_in(set, n)[k]) && 0
                <= places_in(set, n)[k] < n,
        forall|a: int, b: int|
            0 <= a < b < places_in(set, n).len() ==> places_in(set, n)[a] < places_in(set, n)[b],
        0 <= i < n && set.contains(i) ==> places_in(set, n).contains(i),
    decreases n,
{
    if n > 0 {
        picked_messages_keep_their_order(messages, set, n - 1, i);
        let rest = places_in(set, n - 1);
        let all = places_in(set, n);
        if rest.contains(i) {
            let k = choose|k: int| 0 <= k < rest.len() && rest[k] == i;
            assert(all[k] == i);
        }
        if set.contains(n - 1) {
            assert(all[all.len() - 1] == n - 1);
        }
    }
}

// ---------------------------------------------------------------------------
// Merging
// ---------------------------------------------------------------------------

/// Merging puts the summary's blocks behind those of the original prompt, a
/// plain text being one block; either prompt alone stays as it is.
pub proof fn merged_prompts_hold_both(
    text: Seq<char>,
    blocks: Seq<SystemBlockModel>,
    summary: Seq<SystemBlockModel>,
)
    ensures
        merged_prompt(
            Some(SystemPromptModel::Blocks(blocks)),
            Some(SystemPromptModel::Blocks(summary)),
        ) == Some(SystemPromptModel::Blocks(blocks + summary)),
        merged_prompt(
            Some(SystemPromptModel::Text(text)),
            Some(SystemPromptModel::Blocks(summary)),
        ) matches Some(SystemPromptModel::Blocks(all)) && all.len() == summary.len() + 1
            && all[0].text == text && all[0].block_type == "text"@ && all[0].cache_control is None
            && all.skip(1) == summary,
        merged_prompt(
            Some(SystemPromptModel::Blocks(blocks)),
            Some(SystemPromptModel::Text(text)),
        ) matches Some(SystemPromptModel::Blocks(all)) && all.len() == blocks.len() + 1
            && all.last().text == text && all.drop_last() == blocks,
        merged_prompt(Some(SystemPromptModel::Blocks(blocks)), None) == Some(
            SystemPromptModel::Blocks(blocks),
        ),
        merged_prompt(Some(SystemPromptModel::Text(text)), None) == Some(
            SystemPromptModel::Text(text),
        ),
        merged_prompt(None, Some(SystemPromptModel::Blocks(summary))) == Some(
            SystemPromptModel::Blocks(summary),
        ),
        merged_prompt(None, None) is None,
{
    let one = prompt_blocks(SystemPromptModel::Text(text));
    assert((one + summary).skip(1) =~= summary);
    assert((blocks + one).drop_last() =~= blocks);
}

/// How much a summary reads and writes: with a window of half a million tokens
/// or more two thousand characters of a text, four thousand of a result and a
/// hundred and twenty thousand in all, for nine hundred words; else eight
/// hundred, two hundred and forty and twenty-four thousand, for five hundred
/// words.
pub proof fn limits_follow_the_window(model: Seq<char>)
    ensures
        ({
            let l = summary_limits(model);
            if context_window(model) matches Some(w) && w >= 500_000 {
                &&& l.text_snippet_chars == 2_000
                &&& l.tool_result_snippet_chars == 4_000
                &&& l.input_max_chars == 120_000
                &&& l.input_head_chars == 72_000
                &&& l.input_tail_chars == 36_000
                &&& l.max_tokens == 2_048
                &&& l.word_limit == 900
            } else {
                &&& l.text_snippet_chars == 800
                &&& l.tool_result_snippet_chars == 240
                &&& l.input_max_chars == 24_000
                &&& l.input_head_chars == 14_000
                &&& l.input_tail_chars == 6_000
                &&& l.max_tokens == 1_024
                &&& l.word_limit == 500
            }
        }),
{
}

/// Every summary request asks for one plain reply: without tools and thinking,
/// not streamed, at a low temperature, and no longer than the model's limit.
pub proof fn requests_ask_for_a_plain_reply(model: Seq<char>, messages: Seq<MessageModel>)
    ensures
        ({
            let request = summary_request_model(model, messages);
            &&& request.tools is None && request.tool_choice is None
            &&& request.thinking is None && request.reasoning_effort is None
            &&& request.metadata is None
            &&& request.stream == Some(false)
            &&& request.temperature_thousandths == Some(300u32)
            &&& request.top_p_thousandths is None
            &&& request.max_tokens == summary_limits(model).max_tokens
            &&& request.messages.last().content.len() == 1
            &&& request.messages.last().content[0] matches BlockModel::Text { cache_control, .. }
                && cache_control is None
        }),
{
}

/// The anchors of a file are its parts between lines of three dashes, without
/// the blanks around them; blank parts are left out. A file without such a line
/// is one anchor.
pub proof fn anchors_are_the_parts_of_the_file(content: Seq<char>)
    ensures
        exists|parts: Seq<Seq<char>>|
            joined(parts, "\n---\n"@) == content && parts.len() > 0 && (forall|k: int|
                0 <= k < parts.len() ==> !contains_text(#[trigger] parts[k], "\n---\n"@))
                && anchors_in(content) == #[trigger] nonblank_parts(parts),
        !contains_text(content, "\n---\n"@) && trimmed(content).len() > 0 ==> anchors_in(content)
            == seq![trimmed(content)],
        trimmed(content).len() == 0 ==> anchors_in(content).len() == 0,
{
    reveal_strlit("\n---\n");
    let sep = "\n---\n"@;
    let parts = split_text(content, sep);
    joining_undoes_splitting_at_texts(content, sep);
    assert(anchors_in(content) == nonblank_parts(parts));
    if !contains_text(content, sep) {
        lemma_find_text(content, sep, 0);
        if let Some(i) = find_text(content, sep, 0) {
            assert(occurs_at(content, sep, i));
        }
        assert(parts == seq![content]);
        lemma_one_part(content);
    } else if trimmed(content).len() == 0 {
        trimming_takes_outer_blanks(content);
        let i = choose|i: int| occurs_at(content, sep, i);
        assert(content.subrange(i, i + 5)[1] == '-');
        assert(is_whitespace(content[i + 1]));
    }
}

proof fn lemma_one_part(part: Seq<char>)
    ensures
        nonblank_parts(seq![part]) == (if trimmed(part).len() == 0 {
            Seq::empty()
        } else {
            seq![trimmed(part)]
        }),
{
    assert(seq![part].drop_last() =~= Seq::empty());
    assert(nonblank_parts(seq![part].drop_last()) =~= Seq::empty());
    assert(seq![part].last() == part);
    assert(nonblank_parts(seq![part]) =~= if trimmed(part).len() == 0 {
        Seq::empty()
    } else {
        seq![trimmed(part)]
    });
}

} // verus!
