//! What happens to each cell of the transcript, to what is recorded about it and
//! to what is on screen.

use vstd::prelude::*;

use crate::text::decimal;
use crate::text_laws::{decimals_are_read_back, number_of};
use crate::tui::app::history::{for_message, groups_by_cell, references_of_cell, scroll_amount};
use crate::tui::app::inflight::{
    entries_in_flight, goes_to, is_broken_off, is_shown_at, marked_interrupted,
};
use crate::tui::app::transcripts::{
    advanced, fresh_revisions, is_placeholder, resynced, resynced_counter, FOLDED_SUMMARY,
};
use crate::tui::app::{App, TranscriptState};
use crate::tui::cells::{
    interrupted, settled, stepped, ContextReference, HistoryCell, SessionContextReference,
    ToolDetailRecord, ToolStatus,
};
use crate::tui::references::{
    in_message_order, ordering_keeps_references, put_in_order, references_below, session_references,
};
use crate::tui::viewport::TranscriptLineMeta;

verus! {

// ---------------------------------------------------------------------------
// Revisions
// ---------------------------------------------------------------------------

/// Counters go on by one, and come round behind the greatest number.
pub proof fn counters_go_on_by_one(n: u64)
    ensures
        n < u64::MAX ==> stepped(n) == n + 1,
        n == u64::MAX ==> stepped(n) == 0,
        stepped(n) != n,
{
}

proof fn lemma_counted(counter: u64, n: nat)
    requires
        counter + n <= u64::MAX,
    ensures
        advanced(counter, n) == counter + n,
    decreases n,
{
    if n > 0 {
        lemma_counted(counter, (n - 1) as nat);
    }
}

/// Cells that have a revision keep it when revisions are brought into step; the
/// others get new ones in a row, and the counter goes on behind them.
pub proof fn revisions_are_kept_in_step(
    revisions: Seq<u64>,
    counter: u64,
    cells: nat,
    i: int,
)
    requires
        counter + cells <= u64::MAX,
        0 <= i < cells,
    ensures
        resynced(revisions, counter, cells).len() == cells,
        i < revisions.len() ==> resynced(revisions, counter, cells)[i] == revisions[i],
        i >= revisions.len() ==> resynced(revisions, counter, cells)[i] == counter + (i
            - revisions.len()),
        revisions.len() <= cells ==> resynced_counter(revisions.len(), counter, cells) == counter
            + (cells - revisions.len()),
        revisions.len() > cells ==> resynced_counter(revisions.len(), counter, cells) == counter,
{
    if i >= revisions.len() {
        lemma_counted(counter, (i - revisions.len()) as nat);
    }
    if revisions.len() <= cells {
        lemma_counted(counter, (cells - revisions.len()) as nat);
    }
}

/// A changed cell gets the next revision, one that no cell has had.
pub proof fn changed_cells_get_the_next_revision(
    after: TranscriptState,
    before: TranscriptState,
    index: int,
)
    requires
        before.in_step(),
        after.is_bumped(before, index),
        0 <= index,
    ensures
        index < before.history@.len() ==> after.history_revisions@[index]
            == before.next_history_revision && after.next_history_revision == stepped(
            before.next_history_revision,
        ),
        index >= before.history@.len() ==> after.history_revisions@ == before.history_revisions@
            && after.next_history_revision == before.next_history_revision,
        after.history_version == stepped(before.history_version),
        after.history == before.history,
{
    assert(fresh_revisions(before.next_history_revision, 0) =~= Seq::empty());
    assert(before.history_revisions@ + Seq::<u64>::empty() =~= before.history_revisions@);
}

// ---------------------------------------------------------------------------
// Adding and removing cells
// ---------------------------------------------------------------------------

/// Up to five thousand cells are held: the cells added come behind the others,
/// which stay with all that is recorded about them, and each new one gets the
/// next revision.
pub proof fn added_cells_come_behind(
    after: TranscriptState,
    before: TranscriptState,
    cells: Seq<HistoryCell>,
    i: int,
)
    requires
        before.in_step(),
        after.is_grown(before, cells),
        before.history@.len() + cells.len() <= 5_000,
        before.next_history_revision + cells.len() <= u64::MAX,
        0 <= i < before.history@.len() + cells.len(),
    ensures
        after.history@.len() == before.history@.len() + cells.len(),
        i < before.history@.len() ==> after.history@[i] == before.history@[i]
            && after.history_revisions@[i] == before.history_revisions@[i],
        i >= before.history@.len() ==> after.history@[i] == cells[i - before.history@.len()]
            && after.history_revisions@[i] == before.next_history_revision + (i
            - before.history@.len()),
        after.next_history_revision == before.next_history_revision + cells.len(),
        after.tool_cells == before.tool_cells,
        after.tool_details_by_cell == before.tool_details_by_cell,
        after.context_references_by_cell == before.context_references_by_cell,
        after.collapsed_cells == before.collapsed_cells,
        after.active_cell == before.active_cell,
{
    lemma_counted(before.next_history_revision, cells.len());
    if i >= before.history@.len() {
        lemma_counted(before.next_history_revision, (i - before.history@.len()) as nat);
    }
}

/// Beyond five thousand cells the first thousand give way to one that stands
/// for them. Every other cell stays, with its revision, nine hundred and
/// ninety-nine places further down.
pub proof fn old_cells_give_way_to_one(
    after: TranscriptState,
    before: TranscriptState,
    cells: Seq<HistoryCell>,
    i: int,
)
    requires
        before.in_step(),
        after.is_grown(before, cells),
        before.history@.len() + cells.len() > 5_000,
        before.next_history_revision + cells.len() <= u64::MAX,
        1_000 <= i < before.history@.len() + cells.len(),
    ensures
        after.history@.len() == before.history@.len() + cells.len() - 999,
        after.history@[0] is ArchivedContext,
        i < before.history@.len() ==> after.history@[i - 999] == before.history@[i]
            && after.history_revisions@[i - 999] == before.history_revisions@[i],
        i >= before.history@.len() ==> after.history@[i - 999] == cells[i - before.history@.len()]
            && after.history_revisions@[i - 999] == before.next_history_revision + (i
            - before.history@.len()),
{
    let all = before.history@ + cells;
    assert(after.history@.skip(1)[i - 1_000] == after.history@[i - 999]);
    assert(all.skip(1_000)[i - 1_000] == all[i]);
    let revisions = before.history_revisions@ + fresh_revisions(
        before.next_history_revision,
        cells.len(),
    );
    assert(revisions.skip(1_000)[i - 1_000] == revisions[i]);
    if i >= before.history@.len() {
        lemma_counted(before.next_history_revision, (i - before.history@.len()) as nat);
    }
}

/// What is recorded about the folded cells is gone; what is recorded about the
/// others is moved down by the thousand that were taken out.
pub proof fn records_move_with_the_fold(
    after: TranscriptState,
    before: TranscriptState,
    n: usize,
    cell: usize,
    name: Seq<char>,
)
    requires
        after.has_records_moved_down(before, n),
    ensures
        cell >= n && before.tool_details_by_cell@.contains_key(cell)
            ==> after.tool_details_by_cell@.contains_key((cell - n) as usize)
            && after.tool_details_by_cell@[(cell - n) as usize]
            == before.tool_details_by_cell@[cell],
        after.tool_details_by_cell@.contains_key(cell) ==> cell + n <= usize::MAX
            && before.tool_details_by_cell@.contains_key((cell + n) as usize),
        cell >= n && before.context_references_by_cell@.contains_key(cell)
            ==> after.context_references_by_cell@.contains_key((cell - n) as usize)
            && after.context_references_by_cell@[(cell - n) as usize]
            == before.context_references_by_cell@[cell],
        cell >= n && before.collapsed_cells@.contains(cell) ==> after.collapsed_cells@.contains(
            (cell - n) as usize,
        ),
        after.collapsed_cells@.contains(cell) ==> cell + n <= usize::MAX
            && before.collapsed_cells@.contains((cell + n) as usize),
        before.tool_cells@.contains_key(name) && before.tool_cells@[name] >= n
            ==> after.tool_cells@.contains_key(name) && after.tool_cells@[name] + n
            == before.tool_cells@[name],
        before.tool_cells@.contains_key(name) && before.tool_cells@[name] < n
            ==> !after.tool_cells@.contains_key(name),
        !before.tool_cells@.contains_key(name) ==> !after.tool_cells@.contains_key(name),
        before.subagent_card_index@.contains_key(name) && before.subagent_card_index@[name] >= n
            ==> after.subagent_card_index@.contains_key(name) && after.subagent_card_index@[name]
            + n == before.subagent_card_index@[name],
        before.last_fanout_card_index == Some(cell) && cell >= n ==> after.last_fanout_card_index
            == Some((cell - n) as usize),
        before.last_fanout_card_index == Some(cell) && cell < n ==> after.last_fanout_card_index
            is None,
        after.session_context_references@ == session_references(after.context_references_by_cell@),
{
}

/// Cutting the transcript off keeps the cells before the cut, with their
/// revisions and what is recorded about them, and nothing of the others.
pub proof fn cut_transcripts_keep_their_beginning(
    after: TranscriptState,
    before: TranscriptState,
    n: usize,
    cell: usize,
    name: Seq<char>,
)
    requires
        before.in_step(),
        after.is_truncated(before, n),
        n < before.history@.len(),
    ensures
        after.history@.len() == n,
        after.history_revisions@.len() == n,
        cell < n ==> after.history@[cell as int] == before.history@[cell as int]
            && after.history_revisions@[cell as int] == before.history_revisions@[cell as int],
        after.context_references_by_cell@.contains_key(cell) <==> cell < n
            && before.context_references_by_cell@.contains_key(cell),
        after.collapsed_cells@.contains(cell) <==> cell < n && before.collapsed_cells@.contains(
            cell,
        ),
        after.tool_cells@.contains_key(name) <==> before.tool_cells@.contains_key(name)
            && before.tool_cells@[name] < n,
        after.subagent_card_index@.contains_key(name) <==> before.subagent_card_index@.contains_key(
            name,
        ) && before.subagent_card_index@[name] < n,
        after.last_fanout_card_index matches Some(i) ==> i < n,
        before.last_fanout_card_index matches Some(i) && i < n ==> after.last_fanout_card_index
            == before.last_fanout_card_index,
        after.session_context_references@ == session_references(after.context_references_by_cell@),
        after.active_cell == before.active_cell,
        after.session_artifacts == before.session_artifacts,
        after.streaming_message_index == before.streaming_message_index,
        after.history_version == stepped(before.history_version),
        after.next_history_revision == before.next_history_revision,
{
}

/// Taking the last cell off leaves the others, with their revisions.
pub proof fn the_last_cell_is_taken_off(after: TranscriptState, before: TranscriptState, cell: usize)
    requires
        before.in_step(),
        before.history@.len() > 0,
        before.history@.len() <= usize::MAX,
        after.is_popped(before),
    ensures
        after.history@.len() == before.history@.len() - 1,
        cell + 1 < before.history@.len() ==> after.history@[cell as int]
            == before.history@[cell as int] && after.history_revisions@[cell as int]
            == before.history_revisions@[cell as int],
        cell + 1 == before.history@.len() ==> !after.context_references_by_cell@.contains_key(cell),
        cell + 1 != before.history@.len() ==> after.context_references_by_cell@.contains_key(cell)
            == before.context_references_by_cell@.contains_key(cell),
        after.session_context_references@ == session_references(after.context_references_by_cell@),
        after.tool_cells == before.tool_cells,
        after.tool_details_by_cell == before.tool_details_by_cell,
        after.active_cell == before.active_cell,
        after.session_artifacts == before.session_artifacts,
        after.history_version == stepped(before.history_version),
        after.next_history_revision == before.next_history_revision,
{
}

// ---------------------------------------------------------------------------
// Cells in flight
// ---------------------------------------------------------------------------

/// Flushing puts every cell in flight behind the transcript, in order; only a
/// thinking cell that streams is settled. Nothing is in flight behind it, and
/// the details of each call are recorded for the cell that shows it.
pub proof fn flushing_moves_cells_behind(
    after: TranscriptState,
    before: TranscriptState,
    i: int,
    name: Seq<char>,
)
    requires
        after.is_flushed(before),
        before.active_cell is Some,
        entries_in_flight(before.active_cell).len() > 0,
        before.history@.len() <= usize::MAX,
        0 <= i < entries_in_flight(before.active_cell).len(),
    ensures
        after.active_cell is None,
        after.history@.len() == before.history@.len() + entries_in_flight(before.active_cell).len(),
        before.streaming_thinking_active_entry != Some(i as usize) || i > usize::MAX
            ==> after.history@[before.history@.len() + i] == entries_in_flight(
            before.active_cell,
        )[i],
        before.streaming_thinking_active_entry == Some(i as usize) && i <= usize::MAX
            ==> after.history@[before.history@.len() + i] == settled(
            entries_in_flight(before.active_cell)[i],
        ),
        after.history@.take(before.history@.len() as int) == before.history@,
        before.active_tool_details@.contains_key(name) && before.tool_cells@.contains_key(name)
            ==> after.tool_details_by_cell@.contains_key(before.tool_cells@[name]),
        before.active_tool_details@.contains_key(name) && !before.tool_cells@.contains_key(name)
            ==> after.tool_details_by_cell@.contains_key(before.history@.len() as usize),
        !after.active_tool_details@.contains_key(name),
        after.streaming_thinking_active_entry is None,
        after.history_revisions@.take(before.history_revisions@.len() as int)
            == before.history_revisions@,
        before.in_step() && before.next_history_revision + i <= u64::MAX
            ==> after.history_revisions@[before.history@.len() + i] == before.next_history_revision
            + i,
        after.tool_cells == before.tool_cells,
        after.context_references_by_cell == before.context_references_by_cell,
{
    assert(after.history@.take(before.history@.len() as int) =~= before.history@);
    assert(after.history_revisions@.take(before.history_revisions@.len() as int)
        =~= before.history_revisions@);
    if before.next_history_revision + i <= u64::MAX {
        lemma_counted(before.next_history_revision, i as nat);
    }
    let base = before.history@.len() as usize;
    if before.active_tool_details@.contains_key(name) {
        if before.tool_cells@.contains_key(name) {
            assert(goes_to(
                before.active_tool_details@,
                before.tool_cells@,
                base,
                name,
                before.tool_cells@[name],
            ));
        } else {
            assert(goes_to(
                before.active_tool_details@,
                before.tool_cells@,
                base,
                name,
                base,
            ));
        }
    }
}

/// What is under way ends when it is interrupted: a running tool has failed,
/// and thinking no longer streams. What had ended stays as it is.
pub proof fn interruption_ends_what_runs(cell: HistoryCell)
    ensures
        cell matches HistoryCell::Tool(t) ==> (interrupted(cell) matches HistoryCell::Tool(r)
            && r.name == t.name && r.output == t.output && r.status == (if t.status
            == ToolStatus::Running {
            ToolStatus::Failed
        } else {
            t.status
        })),
        cell matches HistoryCell::Thinking { content, .. } ==> (interrupted(
            cell,
        ) matches HistoryCell::Thinking { content: c, streaming } && c == content && !streaming),
        !(cell is Tool) && !(cell is Thinking) ==> interrupted(cell) == cell,
        interrupted(interrupted(cell)) == interrupted(cell),
        settled(settled(cell)) == settled(cell),
        !(cell is Thinking) ==> settled(cell) == cell,
{
}

/// The text of a broken-off answer is marked in front, and is otherwise kept.
pub proof fn broken_off_answers_keep_their_text(content: Seq<char>)
    ensures
        marked_interrupted(Seq::empty()) == "[interrupted]"@,
        marked_interrupted(content) == content || content.len() == 0 || marked_interrupted(content)
            == "[interrupted] "@ + content,
        marked_interrupted(content).len() >= 13,
        marked_interrupted(content).take(13) == "[interrupted]"@,
{
    reveal_strlit("[interrupted]");
    reveal_strlit("[interrupted] ");
    let marked = marked_interrupted(content);
    assert(marked.take(13) =~= "[interrupted]"@);
}

// ---------------------------------------------------------------------------
// Details
// ---------------------------------------------------------------------------

/// Tools and sub-agents open a detail view, wherever their cells stand; so does
/// a cell with details of its own. Other cells do not.
pub proof fn tools_and_agents_open_details(t: TranscriptState, cell: usize)
    requires
        cell < t.history@.len() + entries_in_flight(t.active_cell).len(),
    ensures
        ({
            let shown = if cell < t.history@.len() {
                t.history@[cell as int]
            } else {
                entries_in_flight(t.active_cell)[cell - t.history@.len()]
            };
            &&& shown is Tool || shown is SubAgent ==> t.has_detail_target(cell)
            &&& t.tool_details_by_cell@.contains_key(cell) ==> t.has_detail_target(cell)
            &&& !(shown is Tool) && !(shown is SubAgent) && !t.tool_details_by_cell@.contains_key(
                cell,
            ) && (forall|name: Seq<char>|
                t.active_tool_details@.contains_key(name) ==> !(t.tool_cells@.contains_key(
                    #[trigger] t.active_tool_details@[name].tool_id@,
                ) && t.tool_cells@[t.active_tool_details@[name].tool_id@] == cell))
                ==> !t.has_detail_target(cell)
        }),
{
    let all = t.all_cells();
    assert(all[cell as int] == if cell < t.history@.len() {
        t.history@[cell as int]
    } else {
        entries_in_flight(t.active_cell)[cell - t.history@.len()]
    });
}

/// The cell that a line shows.
pub open spec fn shown_cell(line: TranscriptLineMeta) -> Option<usize> {
    match line {
        TranscriptLineMeta::CellLine { cell_index, .. } => Some(cell_index),
        TranscriptLineMeta::Spacer => None,
    }
}

proof fn lemma_first_detail(
    t: TranscriptState,
    lines: Seq<TranscriptLineMeta>,
    from: int,
    to: int,
    k: int,
)
    requires
        0 <= from <= k < to <= lines.len(),
        shown_cell(lines[k]) is Some,
        t.has_detail_target(shown_cell(lines[k])->0),
        forall|j: int|
            from <= j < k ==> !(shown_cell(#[trigger] lines[j]) is Some && t.has_detail_target(
                shown_cell(lines[j])->0,
            )),
    ensures
        t.first_detail_cell(lines, from, to) == Some(shown_cell(lines[k])->0),
    decreases k - from,
{
    if from < k {
        assert(!(shown_cell(lines[from]) is Some && t.has_detail_target(shown_cell(lines[from])->0)));
        lemma_first_detail(t, lines, from + 1, to, k);
    }
}

/// Without a selection, the details opened are those of the first line on
/// screen that has any.
pub proof fn the_first_details_on_screen_are_opened(
    app: App,
    top: nat,
    visible: nat,
    lines: Seq<TranscriptLineMeta>,
    k: int,
)
    requires
        app.selected_detail_cell(lines) is None,
        top <= k < top + visible,
        k < lines.len(),
        shown_cell(lines[k]) is Some,
        app.transcript.has_detail_target(shown_cell(lines[k])->0),
        forall|j: int|
            top <= j < k ==> !(shown_cell(#[trigger] lines[j]) is Some
                && app.transcript.has_detail_target(shown_cell(lines[j])->0)),
    ensures
        app.detail_cell(top, visible, lines) == Some(shown_cell(lines[k])->0),
{
    let end: int = if top + visible < lines.len() {
        (top + visible) as int
    } else {
        lines.len() as int
    };
    lemma_first_detail(app.transcript, lines, top as int, end, k);
}

proof fn lemma_last_detail(t: TranscriptState, n: nat, cell: usize)
    requires
        cell < n <= usize::MAX,
        t.has_detail_target(cell),
        forall|other: usize|
            cell < other < n ==> !#[trigger] t.has_detail_target(other),
    ensures
        t.last_detail_cell(n) == Some(cell),
    decreases n,
{
    if cell < n - 1 {
        assert(!t.has_detail_target((n - 1) as usize));
        lemma_last_detail(t, (n - 1) as nat, cell);
    }
}

/// With nothing selected and nothing on screen, the last details of all are
/// opened.
pub proof fn else_the_last_details_are_opened(
    app: App,
    top: nat,
    lines: Seq<TranscriptLineMeta>,
    cell: usize,
)
    requires
        app.selected_detail_cell(lines) is None,
        app.transcript.all_cells().len() <= usize::MAX,
        cell < app.transcript.all_cells().len(),
        app.transcript.has_detail_target(cell),
        forall|other: usize|
            cell < other < app.transcript.all_cells().len()
                ==> !#[trigger] app.transcript.has_detail_target(other),
    ensures
        app.detail_cell(top, 0, lines) == Some(cell),
{
    lemma_last_detail(app.transcript, app.transcript.all_cells().len(), cell);
}

/// The details at the start of a selection are opened before all others.
pub proof fn selected_details_are_opened(
    app: App,
    top: nat,
    visible: nat,
    lines: Seq<TranscriptLineMeta>,
)
    requires
        app.viewport.transcript_selection.ends() matches Some((start, _)) && start.line_index
            < lines.len() && shown_cell(lines[start.line_index as int]) is Some
            && app.transcript.has_detail_target(shown_cell(lines[start.line_index as int])->0),
    ensures
        app.viewport.transcript_selection.ends() matches Some((start, _)) && app.detail_cell(
            top,
            visible,
            lines,
        ) == Some(shown_cell(lines[start.line_index as int])->0),
{
}

// ---------------------------------------------------------------------------
// References
// ---------------------------------------------------------------------------

proof fn lemma_put_keeps_order(
    list: Seq<SessionContextReference>,
    reference: SessionContextReference,
    message: usize,
)
    ensures
        put_in_order(list, reference).filter(
            |r: SessionContextReference| r.message_index == message,
        ) == (if reference.message_index == message {
            list.filter(|r: SessionContextReference| r.message_index == message).push(reference)
        } else {
            list.filter(|r: SessionContextReference| r.message_index == message)
        }),
    decreases list.len(),
{
    reveal(Seq::filter);
    let p = |r: SessionContextReference| r.message_index == message;
    let all = put_in_order(list, reference);
    if list.len() == 0 {
        assert(all.drop_last() =~= list);
        assert(all.last() == reference);
        assert(list.filter(p) =~= Seq::empty());
    } else if list.last().message_index <= reference.message_index {
        assert(all.drop_last() =~= list);
    } else {
        let front = put_in_order(list.drop_last(), reference);
        lemma_put_keeps_order(list.drop_last(), reference, message);
        assert(all.drop_last() =~= front);
        assert(all.last() == list.last());
    }
}

/// References of one message keep their order when they are put in the order of
/// the messages.
pub proof fn references_of_a_message_keep_their_order(
    list: Seq<SessionContextReference>,
    message: usize,
)
    ensures
        in_message_order(list).filter(|r: SessionContextReference| r.message_index == message)
            == list.filter(|r: SessionContextReference| r.message_index == message),
    decreases list.len(),
{
    reveal(Seq::filter);
    if list.len() > 0 {
        references_of_a_message_keep_their_order(list.drop_last(), message);
        lemma_put_keeps_order(in_message_order(list.drop_last()), list.last(), message);
    }
}

proof fn lemma_below_contains(
    cells: Map<usize, Vec<SessionContextReference>>,
    n: int,
    r: SessionContextReference,
)
    requires
        0 <= n <= usize::MAX + 1,
    ensures
        references_below(cells, n).contains(r) <==> exists|cell: usize|
            cell < n && #[trigger] cells.contains_key(cell) && cells[cell]@.contains(r),
    decreases n,
{
    if n > 0 {
        lemma_below_contains(cells, n - 1, r);
        let last = (n - 1) as usize;
        let rest = references_below(cells, n - 1);
        if cells.contains_key(last) {
            let own = cells[last]@;
            if rest.contains(r) {
                let k = choose|k: int| 0 <= k < rest.len() && rest[k] == r;
                assert((rest + own)[k] == r);
            }
            if own.contains(r) {
                let k = choose|k: int| 0 <= k < own.len() && own[k] == r;
                assert((rest + own)[rest.len() + k] == r);
            }
            if (rest + own).contains(r) {
                let k = choose|k: int| 0 <= k < (rest + own).len() && (rest + own)[k] == r;
                if k < rest.len() {
                    assert(rest[k] == r);
                } else {
                    assert(own[k - rest.len()] == r);
                }
            }
        }
        if exists|cell: usize|
            cell < n && #[trigger] cells.contains_key(cell) && cells[cell]@.contains(r) {
            let cell = choose|cell: usize|
                cell < n && #[trigger] cells.contains_key(cell) && cells[cell]@.contains(r);
            if cell < n - 1 {
                assert(cells.contains_key(cell));
            }
        }
    }
}

/// The references of a session are those of its cells, all of them and no
/// others, in the order of their messages.
pub proof fn session_references_are_those_of_the_cells(
    cells: Map<usize, Vec<SessionContextReference>>,
    r: SessionContextReference,
)
    ensures
        session_references(cells).contains(r) <==> exists|cell: usize| #[trigger]
            cells.contains_key(cell) && cells[cell]@.contains(r),
        forall|i: int, j: int|
            0 <= i < j < session_references(cells).len() ==> session_references(
                cells,
            )[i].message_index <= session_references(cells)[j].message_index,
{
    broadcast use vstd::seq_lib::group_to_multiset_ensures;

    let all = references_below(cells, usize::MAX + 1);
    ordering_keeps_references(all);
    lemma_below_contains(cells, usize::MAX + 1, r);
    assert(session_references(cells).to_multiset().count(r) == all.to_multiset().count(r));
    assert(session_references(cells).contains(r) <==> all.contains(r));
    if exists|cell: usize| #[trigger] cells.contains_key(cell) && cells[cell]@.contains(r) {
        let cell = choose|cell: usize| #[trigger]
            cells.contains_key(cell) && cells[cell]@.contains(r);
        assert(cell < usize::MAX + 1);
    }
}

/// Each reference of a message is recorded with it, in order.
pub proof fn references_are_recorded_with_their_message(
    references: Seq<ContextReference>,
    message_index: usize,
    i: int,
)
    requires
        0 <= i < references.len(),
    ensures
        for_message(references, message_index).len() == references.len(),
        for_message(references, message_index)[i].message_index == message_index,
        for_message(references, message_index)[i].reference == references[i],
{
}

/// A cell takes over the references of the messages that it shows, and of no
/// others, in their order.
pub proof fn cells_take_over_their_references(
    references: Seq<SessionContextReference>,
    message_to_cell: Map<usize, usize>,
    cell: usize,
)
    ensures
        references_of_cell(references, message_to_cell, cell) == references.filter(
            |r: SessionContextReference|
                message_to_cell.contains_key(r.message_index) && message_to_cell[r.message_index]
                    == cell,
        ),
    decreases references.len(),
{
    reveal(Seq::filter);
    if references.len() > 0 {
        cells_take_over_their_references(references.drop_last(), message_to_cell, cell);
    } else {
        assert(references_of_cell(references, message_to_cell, cell) =~= Seq::empty());
    }
}

// ---------------------------------------------------------------------------
// Scrolling
// ---------------------------------------------------------------------------

/// Scrolling adds up, as far as the counter reaches: scrolling down undoes
/// scrolling up.
pub proof fn scrolling_down_undoes_scrolling_up(app: App, amount: usize)
    requires
        amount <= 1_000_000,
        -1_000_000 <= app.viewport.pending_scroll_delta <= 1_000_000,
    ensures
        app.scrolled(-scroll_amount(amount)).viewport.pending_scroll_delta
            == app.viewport.pending_scroll_delta - amount,
        app.scrolled(scroll_amount(amount)).viewport.pending_scroll_delta
            == app.viewport.pending_scroll_delta + amount,
        app.scrolled(-scroll_amount(amount)).scrolled(
            scroll_amount(amount),
        ).viewport.pending_scroll_delta == app.viewport.pending_scroll_delta,
        app.scrolled(scroll_amount(amount)).user_scrolled_during_stream,
        !app.scrolled(scroll_amount(amount)).follows_transcript(),
{
}

/// Scrolling to the end shows the end again and forgets that the user scrolled.
/// New cells are then followed, unless something is selected.
pub proof fn the_end_is_followed_again(app: App, amount: usize)
    ensures
        !app.at_bottom().user_scrolled_during_stream,
        app.at_bottom().viewport.pending_scroll_delta == 0,
        !app.viewport.transcript_selection.dragging
            && !app.viewport.transcript_selection.has_range()
            ==> app.at_bottom().follows_transcript(),
        app.at_bottom().transcript == app.transcript,
        app.at_bottom().needs_redraw,
{
}

/// A new transcript is followed only where the old one was: else the place on
/// screen is kept.
pub proof fn places_on_screen_are_kept(app: App, transcript: TranscriptState, redraw: bool)
    ensures
        app.with_transcript_followed(transcript, redraw).transcript == transcript,
        app.follows_transcript() ==> app.with_transcript_followed(
            transcript,
            redraw,
        ).follows_transcript(),
        !app.follows_transcript() ==> app.with_transcript_followed(transcript, redraw).viewport
            == app.viewport && app.with_transcript_followed(
            transcript,
            redraw,
        ).user_scrolled_during_stream == app.user_scrolled_during_stream,
        redraw ==> app.with_transcript_followed(transcript, redraw).needs_redraw,
{
}

/// Flushing keeps the details that were recorded. A cell without any takes those
/// of a call that it shows: where there is one such call, its own.
pub proof fn flushed_details_are_those_of_the_call(
    after: TranscriptState,
    before: TranscriptState,
    cell: usize,
    name: Seq<char>,
)
    requires
        after.is_flushed(before),
        before.active_cell is Some,
        entries_in_flight(before.active_cell).len() > 0,
        before.history@.len() <= usize::MAX,
    ensures
        before.tool_details_by_cell@.contains_key(cell)
            ==> after.tool_details_by_cell@.contains_key(cell) && after.tool_details_by_cell@[cell]
            == before.tool_details_by_cell@[cell],
        !before.tool_details_by_cell@.contains_key(cell)
            && before.active_tool_details@.contains_key(name) && before.tool_cells@.contains_key(
            name,
        ) && before.tool_cells@[name] == cell && (forall|other: Seq<char>|
            other != name && #[trigger] before.active_tool_details@.contains_key(other)
                ==> before.tool_cells@.contains_key(other) && before.tool_cells@[other] != cell)
            ==> after.tool_details_by_cell@.contains_key(cell) && after.tool_details_by_cell@[cell]
            == before.active_tool_details@[name],
        after.tool_details_by_cell@.contains_key(cell)
            && !before.tool_details_by_cell@.contains_key(cell) ==> exists|other: Seq<char>|
            #[trigger] before.active_tool_details@.contains_key(other)
                && after.tool_details_by_cell@[cell] == before.active_tool_details@[other],
{
    let active = before.active_tool_details@;
    let base = before.history@.len() as usize;
    if active.contains_key(name) && before.tool_cells@.contains_key(name)
        && before.tool_cells@[name] == cell {
        assert(goes_to(active, before.tool_cells@, base, name, cell));
    }
    if after.tool_details_by_cell@.contains_key(cell)
        && !before.tool_details_by_cell@.contains_key(cell) {
        let other = choose|other: Seq<char>| #[trigger]
            goes_to(active, before.tool_cells@, base, other, cell) && active[other]
                == after.tool_details_by_cell@[cell];
        assert(active.contains_key(other));
    }
}

/// A cell that does not exist opens a detail view only where details are
/// recorded for it.
pub proof fn missing_cells_open_no_details(t: TranscriptState, cell: usize)
    requires
        cell >= t.history@.len() + entries_in_flight(t.active_cell).len(),
        !t.tool_details_by_cell@.contains_key(cell),
        t.active_tool_details@ == Map::<Seq<char>, ToolDetailRecord>::empty(),
    ensures
        !t.has_detail_target(cell),
        !t.has_detail_record(cell),
{
}

/// Details are recorded for a cell by its index, or by the call in flight that
/// it shows.
pub proof fn records_are_found_by_cell_or_call(t: TranscriptState, cell: usize, name: Seq<char>)
    ensures
        t.tool_details_by_cell@.contains_key(cell) ==> t.has_detail_record(cell),
        t.active_tool_details@.contains_key(name) && t.tool_cells@.contains_key(
            t.active_tool_details@[name].tool_id@,
        ) ==> t.has_detail_record(t.tool_cells@[t.active_tool_details@[name].tool_id@]),
{
    if t.active_tool_details@.contains_key(name) && t.tool_cells@.contains_key(
        t.active_tool_details@[name].tool_id@,
    ) {
        assert(is_shown_at(
            t.active_tool_details@,
            t.tool_cells@,
            name,
            t.tool_cells@[t.active_tool_details@[name].tool_id@],
        ));
    }
}

/// A selection that starts behind the last line selects no details, and without
/// lines the last details of all are opened.
pub proof fn empty_screens_open_the_last_details(
    app: App,
    top: nat,
    visible: nat,
    lines: Seq<TranscriptLineMeta>,
)
    ensures
        (app.viewport.transcript_selection.ends() matches Some((start, _)) && start.line_index
            >= lines.len()) ==> app.selected_detail_cell(lines) is None,
        app.viewport.transcript_selection.ends() is None ==> app.selected_detail_cell(lines)
            is None,
        app.selected_detail_cell(Seq::empty()) is None,
        app.detail_cell(top, visible, Seq::empty()) == app.transcript.last_detail_cell(
            app.transcript.all_cells().len(),
        ),
{
}

/// References grouped by cell are those of the messages that the cell shows: a
/// cell is in the map exactly where there are any.
pub proof fn grouped_references_are_those_of_the_messages(
    cells: Map<usize, Vec<SessionContextReference>>,
    references: Seq<SessionContextReference>,
    message_to_cell: Map<usize, usize>,
    cell: usize,
    k: int,
)
    requires
        groups_by_cell(cells, references, message_to_cell),
    ensures
        0 <= k < references.len() && message_to_cell.contains_key(references[k].message_index)
            && message_to_cell[references[k].message_index] == cell ==> cells.contains_key(cell)
            && cells[cell]@.contains(references[k]),
        cells.contains_key(cell) ==> cells[cell]@ == references.filter(
            |r: SessionContextReference|
                message_to_cell.contains_key(r.message_index) && message_to_cell[r.message_index]
                    == cell,
        ) && cells[cell]@.len() > 0,
{
    let p = |r: SessionContextReference|
        message_to_cell.contains_key(r.message_index) && message_to_cell[r.message_index] == cell;
    let own = references_of_cell(references, message_to_cell, cell);
    cells_take_over_their_references(references, message_to_cell, cell);
    if 0 <= k < references.len() && p(references[k]) {
        references.lemma_filter_contains(p, k);
        assert(own.contains(references[k]));
    }
}

/// Flushing nothing leaves the transcript, and nothing in flight.
pub proof fn flushing_nothing_keeps_the_transcript(after: TranscriptState, before: TranscriptState)
    requires
        after.is_flushed(before),
        entries_in_flight(before.active_cell).len() == 0,
    ensures
        after.history == before.history,
        after.history_revisions == before.history_revisions,
        after.tool_details_by_cell == before.tool_details_by_cell,
        after.active_cell is None,
        after.streaming_thinking_active_entry is None,
        before.active_cell is Some ==> after.active_tool_details@ == Map::<
            Seq<char>,
            ToolDetailRecord,
        >::empty() && after.exploring_entries@ == Map::<Seq<char>, usize>::empty()
            && after.exploring_cell is None,
{
}

/// A broken-off answer no longer streams, and its text is the marked one; other
/// cells are left alone.
pub proof fn broken_off_answers_no_longer_stream(after: HistoryCell, before: HistoryCell)
    requires
        is_broken_off(after, before),
    ensures
        before matches HistoryCell::Assistant { content, .. } ==> (
        after matches HistoryCell::Assistant { content: c, streaming } && !streaming && c@
            == marked_interrupted(content@)),
        !(before is Assistant) ==> after == before,
{
}

/// Changes of the transcript and of the place in it ask for the screen to be
/// drawn again, and touch nothing else.
pub proof fn changes_are_drawn(app: App, transcript: TranscriptState, delta: int)
    ensures
        app.with_transcript(transcript).needs_redraw,
        app.with_transcript(transcript).transcript == transcript,
        app.with_transcript(transcript).viewport == app.viewport,
        app.with_transcript(transcript).composer == app.composer,
        app.scrolled(delta).needs_redraw,
        app.scrolled(delta).transcript == app.transcript,
        app.scrolled(delta).viewport.transcript_scroll == app.viewport.transcript_scroll,
        app.scrolled(delta).viewport.transcript_selection == app.viewport.transcript_selection,
{
}

/// The cell that stands for folded ones says how many they are, and by which
/// places they went.
pub proof fn placeholders_say_what_they_stand_for(cell: HistoryCell, n: nat)
    requires
        n > 0,
        is_placeholder(cell, n),
    ensures
        exists|count: Seq<char>, last: Seq<char>|
            number_of(count) == n && number_of(last) == n - 1 && (
            cell matches HistoryCell::ArchivedContext {
                level,
                range,
                tokens,
                density,
                model,
                timestamp,
                summary,
            } && level == 0 && range@ == "cells 0-"@ + last && tokens@.len() == 0 && density@.len()
                == 0 && model@.len() == 0 && timestamp@.len() == 0 && summary@ == #[trigger] (count
                + FOLDED_SUMMARY@) && #[trigger] last.len() > 0),
{
    decimals_are_read_back(n);
    decimals_are_read_back((n - 1) as nat);
    let count = decimal(n);
    let last = decimal((n - 1) as nat);
    assert(last.len() > 0 && (count + FOLDED_SUMMARY@).len() >= 0);
}

/// Beyond the cap what is recorded about cells moves with the fold; the cells in
/// flight stay.
pub proof fn folding_moves_the_records(
    after: TranscriptState,
    before: TranscriptState,
    cells: Seq<HistoryCell>,
    cell: usize,
    name: Seq<char>,
)
    requires
        after.is_grown(before, cells),
        before.history@.len() + cells.len() > 5_000,
    ensures
        cell >= 1_000 && before.tool_details_by_cell@.contains_key(cell)
            ==> after.tool_details_by_cell@.contains_key((cell - 1_000) as usize)
            && after.tool_details_by_cell@[(cell - 1_000) as usize]
            == before.tool_details_by_cell@[cell],
        before.tool_cells@.contains_key(name) && before.tool_cells@[name] >= 1_000
            ==> after.tool_cells@.contains_key(name) && after.tool_cells@[name] + 1_000
            == before.tool_cells@[name],
        before.tool_cells@.contains_key(name) && before.tool_cells@[name] < 1_000
            ==> !after.tool_cells@.contains_key(name),
        after.session_context_references@ == session_references(after.context_references_by_cell@),
        after.active_cell == before.active_cell,
        after.active_tool_details == before.active_tool_details,
        after.session_artifacts == before.session_artifacts,
{
    records_move_with_the_fold(after, before, 1_000, cell, name);
}

/// Marking the cells in flight as changed gives them a new revision and changes
/// no cell.
pub proof fn marking_cells_in_flight_keeps_them(after: TranscriptState, before: TranscriptState)
    requires
        after.is_active_bumped(before),
    ensures
        entries_in_flight(after.active_cell) == entries_in_flight(before.active_cell),
        after.active_cell is Some <==> before.active_cell is Some,
        before.active_cell matches Some(b) ==> (after.active_cell matches Some(a) && a.revision
            == stepped(b.revision)),
        after.active_cell_revision == stepped(before.active_cell_revision),
        after.history_version == stepped(before.history_version),
        after.history == before.history,
        after.history_revisions == before.history_revisions,
        after.tool_cells == before.tool_cells,
{
}

} // verus!
