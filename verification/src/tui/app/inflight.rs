//! The cells in flight, and looking cells up across the transcript and them.

use vstd::prelude::*;

use crate::text::{has_prefix, starts_with};
use crate::tui::app::transcripts::{advanced, fresh_revisions};
use crate::tui::app::{App, TranscriptState};
use crate::tui::cells::{
    has_details, interrupted, settled, step, stepped, ActiveCell, HistoryCell, ToolDetailRecord,
};
use crate::tui::tables::{distinct_names, holds_name, name_map, name_position};
use crate::tui::viewport::TranscriptLineMeta;

verus! {

// ---------------------------------------------------------------------------
// Looking cells up
// ---------------------------------------------------------------------------

/// The cells in flight.
pub open spec fn entries_in_flight(active: Option<ActiveCell>) -> Seq<HistoryCell> {
    match active {
        Some(active) => active.entries@,
        None => Seq::empty(),
    }
}

/// A detail record belongs to a tool call that is shown in this cell.
pub open spec fn is_shown_at(
    active: Map<Seq<char>, ToolDetailRecord>,
    tool_cells: Map<Seq<char>, usize>,
    name: Seq<char>,
    cell: usize,
) -> bool {
    &&& active.contains_key(name)
    &&& tool_cells.contains_key(active[name].tool_id@)
    &&& tool_cells[active[name].tool_id@] == cell
}

impl TranscriptState {
    /// The cells of the transcript and those in flight.
    pub open spec fn all_cells(self) -> Seq<HistoryCell> {
        self.history@ + entries_in_flight(self.active_cell)
    }

    /// Details are recorded for a cell, or for a tool call in flight that it
    /// shows.
    pub open spec fn has_detail_record(self, cell: usize) -> bool {
        ||| self.tool_details_by_cell@.contains_key(cell)
        ||| exists|name: Seq<char>|
            is_shown_at(self.active_tool_details@, self.tool_cells@, name, cell)
    }

    /// A cell opens a detail view.
    pub open spec fn has_detail_target(self, cell: usize) -> bool {
        ||| self.has_detail_record(cell)
        ||| cell < self.all_cells().len() && has_details(self.all_cells()[cell as int])
    }

    /// The cell of the first line in a range that opens a detail view.
    pub open spec fn first_detail_cell(
        self,
        lines: Seq<TranscriptLineMeta>,
        from: int,
        to: int,
    ) -> Option<usize>
        decreases to - from,
    {
        if from >= to {
            None
        } else {
            match lines[from].cell() {
                Some((cell, _)) if self.has_detail_target(cell) => Some(cell),
                _ => self.first_detail_cell(lines, from + 1, to),
            }
        }
    }

    /// The last of the first `n` cells that opens a detail view.
    pub open spec fn last_detail_cell(self, n: nat) -> Option<usize>
        decreases n,
    {
        if n == 0 {
            None
        } else if self.has_detail_target((n - 1) as usize) {
            Some((n - 1) as usize)
        } else {
            self.last_detail_cell((n - 1) as nat)
        }
    }
}

impl App {
    /// The cell at the start of the selection, where it opens a detail view.
    pub open spec fn selected_detail_cell(self, lines: Seq<TranscriptLineMeta>) -> Option<usize> {
        match self.viewport.transcript_selection.ends() {
            Some((start, _)) => if start.line_index < lines.len() {
                match lines[start.line_index as int].cell() {
                    Some((cell, _)) if self.transcript.has_detail_target(cell) => Some(cell),
                    _ => None,
                }
            } else {
                None
            },
            None => None,
        }
    }

    /// The cell whose details are opened: the selected one, else the first on
    /// screen, else the last of all.
    pub open spec fn detail_cell(
        self,
        top: nat,
        visible: nat,
        lines: Seq<TranscriptLineMeta>,
    ) -> Option<usize> {
        let start: int = if top < lines.len() {
            top as int
        } else if lines.len() > 0 {
            lines.len() - 1
        } else {
            0
        };
        let end: int = if start + visible < lines.len() {
            start + visible
        } else {
            lines.len() as int
        };
        if self.selected_detail_cell(lines) is Some {
            self.selected_detail_cell(lines)
        } else if self.transcript.first_detail_cell(lines, start, end) is Some {
            self.transcript.first_detail_cell(lines, start, end)
        } else {
            self.transcript.last_detail_cell(self.transcript.all_cells().len())
        }
    }

    /// How many cells there are, those in flight counted in.
    #[must_use]
    pub fn virtual_cell_count(&self) -> (res: usize)
        requires
            self.transcript.all_cells().len() <= usize::MAX,
        ensures
            res == self.transcript.all_cells().len(),
    {
        match &self.transcript.active_cell {
            Some(active) => self.transcript.history.len() + active.entries.len(),
            None => self.transcript.history.len(),
        }
    }

    /// The index that the next cell in flight gets.
    #[must_use]
    pub fn next_virtual_cell_index(&self) -> (res: usize)
        requires
            self.transcript.all_cells().len() <= usize::MAX,
        ensures
            res == self.transcript.all_cells().len(),
    {
        self.virtual_cell_count()
    }

    /// The cell at an index, those in flight counted behind the transcript.
    #[must_use]
    pub fn cell_at_virtual_index(&self, index: usize) -> (res: Option<&HistoryCell>)
        ensures
            match res {
                Some(cell) => index < self.transcript.all_cells().len() && *cell
                    == self.transcript.all_cells()[index as int],
                None => index >= self.transcript.all_cells().len(),
            },
    {
        let committed: usize = self.transcript.history.len();
        if index < committed {
            return Some(&self.transcript.history[index]);
        }
        match &self.transcript.active_cell {
            Some(active) => if index - committed < active.entries.len() {
                Some(&active.entries[index - committed])
            } else {
                None
            },
            None => None,
        }
    }

    /// What is recorded about the tool call that a cell shows.
    #[must_use]
    pub fn tool_detail_record_for_cell(&self, index: usize) -> (res: Option<&ToolDetailRecord>)
        ensures
            match res {
                Some(detail) => {
                    &&& self.transcript.has_detail_record(index)
                    &&& self.transcript.tool_details_by_cell@.contains_key(index) ==> *detail
                        == self.transcript.tool_details_by_cell@[index]
                    &&& !self.transcript.tool_details_by_cell@.contains_key(index) ==> exists|
                        name: Seq<char>,
                    |
                        is_shown_at(
                            self.transcript.active_tool_details@,
                            self.transcript.tool_cells@,
                            name,
                            index,
                        ) && #[trigger] self.transcript.active_tool_details@[name] == *detail
                },
                None => !self.transcript.has_detail_record(index),
            },
    {
        let t = &self.transcript;
        if let Some(detail) = t.tool_details_by_cell.get(&index) {
            return Some(detail);
        }
        let total: usize = t.active_tool_details.len();
        let ghost entries = t.active_tool_details.entries();
        let ghost active = t.active_tool_details@;
        let mut i: usize = 0;
        while i < total
            invariant
                i <= total == entries.len(),
                *t == self.transcript,
                entries == t.active_tool_details.entries(),
                active == t.active_tool_details@,
                active == name_map(entries),
                distinct_names(entries),
                !t.tool_details_by_cell@.contains_key(index),
                forall|k: int|
                    0 <= k < i ==> !is_shown_at(
                        active,
                        t.tool_cells@,
                        (#[trigger] entries[k]).0@,
                        index,
                    ),
            decreases total - i,
        {
            let detail = t.active_tool_details.value(i);
            let ghost name = entries[i as int].0@;
            if let Some(cell) = t.tool_cells.get(detail.tool_id.as_str()) {
                if *cell == index {
                    proof {
                        assert(is_shown_at(active, t.tool_cells@, name, index));
                        assert(active[name] == *detail);
                    }
                    return Some(detail);
                }
            }
            i += 1;
        }
        proof {
            assert forall|name: Seq<char>| !is_shown_at(active, t.tool_cells@, name, index) by {
                if active.contains_key(name) {
                    assert(holds_name(entries, name));
                    let k = name_position(entries, name);
                    assert(entries[k].0@ == name);
                }
            }
        }
        None
    }

    /// Whether a cell opens a detail view.
    #[must_use]
    pub fn cell_has_detail_target(&self, index: usize) -> (res: bool)
        ensures
            res == self.transcript.has_detail_target(index),
    {
        if self.tool_detail_record_for_cell(index).is_some() {
            return true;
        }
        match self.cell_at_virtual_index(index) {
            Some(HistoryCell::Tool(_)) => true,
            Some(HistoryCell::SubAgent(_)) => true,
            _ => false,
        }
    }

    /// Picks the cell whose details are opened.
    #[must_use]
    pub fn detail_cell_index_for_viewport(
        &self,
        top: usize,
        visible: usize,
        line_meta: &[TranscriptLineMeta],
    ) -> (res: Option<usize>)
        requires
            self.transcript.all_cells().len() <= usize::MAX,
        ensures
            res == self.detail_cell(top as nat, visible as nat, line_meta@),
    {
        if let Some((first, _)) = self.viewport.transcript_selection.ordered_endpoints() {
            if first.line_index < line_meta.len() {
                if let Some((cell, _)) = line_meta[first.line_index].cell_line() {
                    if self.cell_has_detail_target(cell) {
                        return Some(cell);
                    }
                }
            }
        }
        let total: usize = line_meta.len();
        let start: usize = if top < total {
            top
        } else if total > 0 {
            total - 1
        } else {
            0
        };
        let end: usize = if visible < total - start {
            start + visible
        } else {
            total
        };
        let mut i: usize = start;
        while i < end
            invariant
                start <= i <= end <= total == line_meta@.len(),
                self.transcript.first_detail_cell(line_meta@, start as int, end as int)
                    == self.transcript.first_detail_cell(line_meta@, i as int, end as int),
                self.selected_detail_cell(line_meta@) is None,
                self.transcript.first_detail_cell(line_meta@, start as int, end as int) is Some
                    ==> self.detail_cell(top as nat, visible as nat, line_meta@)
                    == self.transcript.first_detail_cell(line_meta@, start as int, end as int),
            decreases end - i,
        {
            if let Some((cell, _)) = line_meta[i].cell_line() {
                if self.cell_has_detail_target(cell) {
                    return Some(cell);
                }
            }
            i += 1;
        }
        let mut n: usize = self.virtual_cell_count();
        while n > 0
            invariant
                n <= self.transcript.all_cells().len(),
                self.transcript.last_detail_cell(n as nat) == self.transcript.last_detail_cell(
                    self.transcript.all_cells().len(),
                ),
                self.detail_cell(top as nat, visible as nat, line_meta@)
                    == self.transcript.last_detail_cell(self.transcript.all_cells().len()),
            decreases n,
        {
            if self.cell_has_detail_target(n - 1) {
                return Some(n - 1);
            }
            n -= 1;
        }
        None
    }
}

/// A cell that is picked for its details opens a detail view.
pub proof fn picked_cells_have_details(
    app: App,
    top: nat,
    visible: nat,
    lines: Seq<TranscriptLineMeta>,
)
    ensures
        app.detail_cell(top, visible, lines) matches Some(cell)
            ==> app.transcript.has_detail_target(cell),
        app.detail_cell(top, visible, lines) is None ==> forall|cell: usize|
            cell < app.transcript.all_cells().len() ==> !#[trigger] app.transcript.has_detail_target(
                cell,
            ),
{
    let start: int = if top < lines.len() {
        top as int
    } else if lines.len() > 0 {
        lines.len() - 1
    } else {
        0
    };
    let end: int = if start + visible < lines.len() {
        start + visible
    } else {
        lines.len() as int
    };
    lemma_first_has_details(app.transcript, lines, start, end);
    lemma_last_has_details(app.transcript, app.transcript.all_cells().len());
}

proof fn lemma_first_has_details(
    t: TranscriptState,
    lines: Seq<TranscriptLineMeta>,
    from: int,
    to: int,
)
    ensures
        t.first_detail_cell(lines, from, to) matches Some(cell) ==> t.has_detail_target(cell),
    decreases to - from,
{
    if from < to {
        lemma_first_has_details(t, lines, from + 1, to);
    }
}

proof fn lemma_last_has_details(t: TranscriptState, n: nat)
    ensures
        t.last_detail_cell(n) matches Some(cell) ==> t.has_detail_target(cell),
        t.last_detail_cell(n) is None ==> forall|cell: usize|
            cell < n ==> !#[trigger] t.has_detail_target(cell),
    decreases n,
{
    if n > 0 {
        lemma_last_has_details(t, (n - 1) as nat);
    }
}

// ---------------------------------------------------------------------------
// Changing the cells in flight
// ---------------------------------------------------------------------------

/// The cells in flight with the one at this position settled.
pub open spec fn settled_at(cells: Seq<HistoryCell>, at: Option<usize>) -> Seq<HistoryCell> {
    match at {
        Some(i) => if i < cells.len() {
            cells.update(i as int, settled(cells[i as int]))
        } else {
            cells
        },
        None => cells,
    }
}

/// The details of a tool call go to a cell: the one that shows the call, else
/// the first one behind the transcript.
pub open spec fn goes_to(
    active: Map<Seq<char>, ToolDetailRecord>,
    tool_cells: Map<Seq<char>, usize>,
    base: usize,
    name: Seq<char>,
    cell: usize,
) -> bool {
    &&& active.contains_key(name)
    &&& cell == (if tool_cells.contains_key(name) {
        tool_cells[name]
    } else {
        base
    })
}

/// The details of tool calls in flight are recorded for their cells. What was
/// recorded stays. Where several calls go to one cell, the details of one of
/// them are recorded.
pub open spec fn takes_details(
    after: Map<usize, ToolDetailRecord>,
    before: Map<usize, ToolDetailRecord>,
    active: Map<Seq<char>, ToolDetailRecord>,
    tool_cells: Map<Seq<char>, usize>,
    base: usize,
) -> bool {
    &&& forall|cell: usize| #[trigger]
        before.contains_key(cell) ==> after.contains_key(cell) && after[cell] == before[cell]
    &&& forall|cell: usize| #[trigger]
        after.contains_key(cell) && !before.contains_key(cell) ==> exists|name: Seq<char>|
            #[trigger] goes_to(active, tool_cells, base, name, cell) && active[name] == after[cell]
    &&& forall|name: Seq<char>, cell: usize| #[trigger]
        goes_to(active, tool_cells, base, name, cell) ==> after.contains_key(cell)
}

/// Takes the details of one more tool call.
proof fn lemma_takes_one(
    after: Map<usize, ToolDetailRecord>,
    mid: Map<usize, ToolDetailRecord>,
    before: Map<usize, ToolDetailRecord>,
    taken: Map<Seq<char>, ToolDetailRecord>,
    tool_cells: Map<Seq<char>, usize>,
    base: usize,
    name: Seq<char>,
    detail: ToolDetailRecord,
    cell: usize,
)
    requires
        takes_details(mid, before, taken, tool_cells, base),
        !taken.contains_key(name),
        goes_to(taken.insert(name, detail), tool_cells, base, name, cell),
        mid.contains_key(cell) ==> after == mid,
        !mid.contains_key(cell) ==> after == mid.insert(cell, detail),
    ensures
        takes_details(after, before, taken.insert(name, detail), tool_cells, base),
{
    let all = taken.insert(name, detail);
    assert forall|c: usize| #[trigger]
        after.contains_key(c) && !before.contains_key(c) implies exists|n: Seq<char>|
        #[trigger] goes_to(all, tool_cells, base, n, c) && all[n] == after[c] by {
        if mid.contains_key(c) {
            let n = choose|n: Seq<char>| #[trigger]
                goes_to(taken, tool_cells, base, n, c) && taken[n] == mid[c];
            assert(goes_to(all, tool_cells, base, n, c) && all[n] == after[c]);
        } else {
            assert(goes_to(all, tool_cells, base, name, c) && all[name] == after[c]);
        }
    }
    assert forall|n: Seq<char>, c: usize| #[trigger]
        goes_to(all, tool_cells, base, n, c) implies after.contains_key(c) by {
        if n != name {
            assert(goes_to(taken, tool_cells, base, n, c));
        }
    }
}

impl TranscriptState {
    /// The transcript once the cells in flight are marked as changed.
    pub open spec fn is_active_bumped(self, before: TranscriptState) -> bool {
        self == (TranscriptState {
            active_cell: match before.active_cell {
                Some(active) => Some(
                    ActiveCell { entries: active.entries, revision: stepped(active.revision) },
                ),
                None => None,
            },
            active_cell_revision: stepped(before.active_cell_revision),
            history_version: stepped(before.history_version),
            ..before
        })
    }

    fn bump_active(&mut self)
        ensures
            final(self).is_active_bumped(*old(self)),
    {
        self.active_cell_revision = step(self.active_cell_revision);
        if let Some(active) = self.active_cell.take() {
            let mut active = active;
            active.bump_revision();
            self.active_cell = Some(active);
        }
        self.history_version = step(self.history_version);
    }

    /// Nothing is recorded about tool calls in flight.
    pub open spec fn has_no_tools_in_flight(self) -> bool {
        &&& self.exploring_entries@ == Map::<Seq<char>, usize>::empty()
        &&& self.active_tool_details@ == Map::<Seq<char>, ToolDetailRecord>::empty()
    }

    /// The transcript once the cells in flight are part of it.
    pub open spec fn is_flushed(self, before: TranscriptState) -> bool {
        let cells = settled_at(
            entries_in_flight(before.active_cell),
            before.streaming_thinking_active_entry,
        );
        if before.active_cell is None {
            self == (TranscriptState { streaming_thinking_active_entry: None, ..before })
        } else if cells.len() == 0 {
            &&& self.has_no_tools_in_flight()
            &&& self == (TranscriptState {
                active_cell: None,
                exploring_cell: None,
                exploring_entries: self.exploring_entries,
                active_tool_details: self.active_tool_details,
                streaming_thinking_active_entry: None,
                active_cell_revision: stepped(before.active_cell_revision),
                history_version: stepped(before.history_version),
                ..before
            })
        } else {
            &&& self.has_no_tools_in_flight()
            &&& self.history@ == before.history@ + cells
            &&& self.history_revisions@ == before.history_revisions@ + fresh_revisions(
                before.next_history_revision,
                cells.len(),
            )
            &&& takes_details(
                self.tool_details_by_cell@,
                before.tool_details_by_cell@,
                before.active_tool_details@,
                before.tool_cells@,
                before.history@.len() as usize,
            )
            &&& self == (TranscriptState {
                history: self.history,
                history_revisions: self.history_revisions,
                next_history_revision: advanced(before.next_history_revision, cells.len()),
                tool_details_by_cell: self.tool_details_by_cell,
                active_cell: None,
                exploring_cell: None,
                exploring_entries: self.exploring_entries,
                active_tool_details: self.active_tool_details,
                streaming_thinking_active_entry: None,
                history_version: stepped(before.history_version),
                ..before
            })
        }
    }

    fn move_details(&mut self, base: usize)
        ensures
            takes_details(
                final(self).tool_details_by_cell@,
                old(self).tool_details_by_cell@,
                old(self).active_tool_details@,
                old(self).tool_cells@,
                base,
            ),
            final(self).active_tool_details@ == Map::<Seq<char>, ToolDetailRecord>::empty(),
            *final(self) == (TranscriptState {
                tool_details_by_cell: final(self).tool_details_by_cell,
                active_tool_details: final(self).active_tool_details,
                ..*old(self)
            }),
    {
        let ghost before = *self;
        let ghost all = before.active_tool_details@;
        let ghost mut taken: Map<Seq<char>, ToolDetailRecord> = Map::empty();
        let mut count: usize = self.active_tool_details.len();
        while count > 0
            invariant
                count == self.active_tool_details.entries().len(),
                *self == (TranscriptState {
                    tool_details_by_cell: self.tool_details_by_cell,
                    active_tool_details: self.active_tool_details,
                    ..before
                }),
                all == before.active_tool_details@,
                takes_details(
                    self.tool_details_by_cell@,
                    before.tool_details_by_cell@,
                    taken,
                    before.tool_cells@,
                    base,
                ),
                forall|name: Seq<char>| #[trigger]
                    all.contains_key(name) <==> (taken.contains_key(name)
                        || self.active_tool_details@.contains_key(name)),
                forall|name: Seq<char>| #[trigger]
                    taken.contains_key(name) ==> taken[name] == all[name]
                        && !self.active_tool_details@.contains_key(name),
                forall|name: Seq<char>| #[trigger]
                    self.active_tool_details@.contains_key(name)
                        ==> self.active_tool_details@[name] == all[name],
            decreases count,
        {
            let ghost rest = self.active_tool_details@;
            let ghost mid = self.tool_details_by_cell@;
            match self.active_tool_details.pop() {
                Some((name, detail)) => {
                    proof { assert(rest.contains_key(name@)); }
                    let cell: usize = match self.tool_cells.get(name.as_str()) {
                        Some(cell) => *cell,
                        None => base,
                    };
                    let ghost d = detail;
                    if !self.tool_details_by_cell.contains_key(&cell) {
                        self.tool_details_by_cell.insert(cell, detail);
                    }
                    proof {
                        lemma_takes_one(
                            self.tool_details_by_cell@,
                            mid,
                            before.tool_details_by_cell@,
                            taken,
                            before.tool_cells@,
                            base,
                            name@,
                            d,
                            cell,
                        );
                        let now = taken.insert(name@, d);
                        assert forall|n: Seq<char>| #[trigger]
                            all.contains_key(n) <==> (now.contains_key(n)
                                || self.active_tool_details@.contains_key(n)) by {
                            assert(rest.contains_key(n) <==> n == name@
                                || self.active_tool_details@.contains_key(n));
                        }
                        assert forall|n: Seq<char>| #[trigger] now.contains_key(n) implies now[n]
                            == all[n] && !self.active_tool_details@.contains_key(n) by {
                            if n != name@ {
                                assert(taken.contains_key(n));
                            }
                        }
                        assert forall|n: Seq<char>| #[trigger]
                            self.active_tool_details@.contains_key(n) implies
                            self.active_tool_details@[n] == all[n] by {
                            assert(rest.contains_key(n));
                        }
                        taken = now;
                    }
                },
                None => {},
            }
            count -= 1;
        }
        let _ = self.active_tool_details.len();
        proof {
            let none = self.active_tool_details;
            assert(none@ =~= Map::<Seq<char>, ToolDetailRecord>::empty()) by {
                assert forall|name: Seq<char>| !none@.contains_key(name) by {
                    if none@.contains_key(name) {
                        assert(holds_name(none.entries(), name));
                    }
                }
            }
            assert forall|n: Seq<char>| taken.contains_key(n) <==> all.contains_key(n) by {
                assert(all.contains_key(n) <==> (taken.contains_key(n) || none@.contains_key(n)));
            }
            assert(taken =~= all);
        }
    }

    /// Makes the cells in flight part of the transcript. Returns whether there
    /// were cells.
    fn flush(&mut self) -> (res: bool)
        ensures
            final(self).is_flushed(*old(self)),
            res == (entries_in_flight(old(self).active_cell).len() > 0),
    {
        let ghost before = *self;
        let active = match self.active_cell.take() {
            Some(active) => active,
            None => {
                self.streaming_thinking_active_entry = None;
                return false;
            },
        };
        let mut active = active;
        if active.entries.len() == 0 {
            self.exploring_cell = None;
            self.exploring_entries.clear();
            self.active_tool_details.clear();
            self.streaming_thinking_active_entry = None;
            self.bump_active();
            return false;
        }
        if let Some(entry) = self.streaming_thinking_active_entry.take() {
            active.settle_entry(entry);
        }
        let base: usize = self.history.len();
        self.move_details(base);
        self.exploring_cell = None;
        self.exploring_entries.clear();
        self.push_cells(active.entries);
        self.history_version = step(self.history_version);
        true
    }
}

/// Making the cells in flight part of the transcript keeps every cell at its
/// index, but for a thinking cell that no longer streams.
pub proof fn flushing_keeps_cells(after: TranscriptState, before: TranscriptState, index: int)
    requires
        after.is_flushed(before),
        0 <= index < before.all_cells().len(),
    ensures
        after.all_cells().len() == before.all_cells().len(),
        after.active_cell is None,
        after.all_cells()[index] == before.all_cells()[index] || (index >= before.history@.len()
            && after.all_cells()[index] == settled(before.all_cells()[index])),
{
}

/// Making the cells in flight part of the transcript keeps one revision for each
/// cell.
pub proof fn flushing_keeps_step(after: TranscriptState, before: TranscriptState)
    requires
        before.in_step(),
        after.is_flushed(before),
    ensures
        after.in_step(),
{
}

/// Making the cells in flight part of the transcript again changes nothing.
pub proof fn flushing_twice_is_flushing_once(
    again: TranscriptState,
    after: TranscriptState,
    before: TranscriptState,
)
    requires
        after.is_flushed(before),
        again.is_flushed(after),
    ensures
        again == after,
{
}

impl App {
    /// Marks the cells in flight as changed.
    pub fn bump_active_cell_revision(&mut self)
        ensures
            final(self).transcript.is_active_bumped(old(self).transcript),
            *final(self) == old(self).with_transcript(final(self).transcript),
    {
        self.transcript.bump_active();
        self.needs_redraw = true;
    }

    /// Makes the cells in flight part of the transcript, and shows them where
    /// new cells are followed.
    pub fn flush_active_cell(&mut self)
        ensures
            final(self).transcript.is_flushed(old(self).transcript),
            *final(self) == (if entries_in_flight(old(self).transcript.active_cell).len() > 0 {
                old(self).with_transcript_followed(final(self).transcript, true)
            } else if old(self).transcript.active_cell is Some {
                old(self).with_transcript(final(self).transcript)
            } else {
                App { transcript: final(self).transcript, ..*old(self) }
            }),
    {
        let present = self.transcript.active_cell.is_some();
        let flushed = self.transcript.flush();
        self.redraw_if(present);
        if flushed {
            self.follow_transcript();
        }
    }

    /// Ends what is under way in the cells in flight and makes them part of the
    /// transcript.
    pub fn finalize_active_cell_as_interrupted(&mut self)
        ensures
            exists|ended: TranscriptState|
                {
                    &&& #[trigger] final(self).transcript.is_flushed(ended)
                    &&& entries_in_flight(ended.active_cell) == entries_in_flight(
                        old(self).transcript.active_cell,
                    ).map_values(|cell: HistoryCell| interrupted(cell))
                    &&& ended.active_cell is Some <==> old(self).transcript.active_cell is Some
                    &&& ended == (TranscriptState {
                        active_cell: ended.active_cell,
                        ..old(self).transcript
                    })
                },
            *final(self) == (if entries_in_flight(old(self).transcript.active_cell).len() > 0 {
                old(self).with_transcript_followed(final(self).transcript, true)
            } else if old(self).transcript.active_cell is Some {
                old(self).with_transcript(final(self).transcript)
            } else {
                App { transcript: final(self).transcript, ..*old(self) }
            }),
    {
        let ghost before = self.transcript;
        if let Some(active) = self.transcript.active_cell.take() {
            let mut active = active;
            active.mark_in_progress_as_interrupted();
            self.transcript.active_cell = Some(active);
        }
        let ghost ended = self.transcript;
        proof {
            assert(entries_in_flight(ended.active_cell) =~= entries_in_flight(
                before.active_cell,
            ).map_values(|cell: HistoryCell| interrupted(cell)));
        }
        self.flush_active_cell();
        proof { assert(self.transcript.is_flushed(ended)); }
    }

    /// The cell at an index, for changing it, those in flight counted behind
    /// the transcript. The cell is marked as changed.
    pub fn cell_at_virtual_index_mut(&mut self, index: usize) -> (res: Option<&mut HistoryCell>)
        ensures
            res is Some <==> index < old(self).transcript.all_cells().len(),
            res matches Some(cell) ==> *cell == old(self).transcript.all_cells()[index as int],
            index < old(self).transcript.history@.len() ==> (res matches Some(cell) && ({
                let t = final(self).transcript;
                &&& t.history@ == old(self).transcript.history@.update(index as int, *final(cell))
                &&& (TranscriptState { history: old(self).transcript.history, ..t }).is_bumped(
                    old(self).transcript,
                    index as int,
                )
                &&& *final(self) == (App { transcript: t, ..*old(self) })
            })),
            index >= old(self).transcript.history@.len() ==> ({
                let t = final(self).transcript;
                let before = old(self).transcript;
                let place = index - before.history@.len();
                &&& t == (TranscriptState {
                    active_cell: t.active_cell,
                    active_cell_revision: stepped(before.active_cell_revision),
                    history_version: stepped(before.history_version),
                    ..before
                })
                &&& res is None ==> t.active_cell == before.active_cell
                &&& res matches Some(cell) ==> (before.active_cell matches Some(b)
                    && t.active_cell matches Some(a) && a.revision == b.revision && a.entries@
                    == b.entries@.update(place, *final(cell)))
                &&& *final(self) == (App { transcript: t, ..*old(self) })
            }),
    {
        let committed: usize = self.transcript.history.len();
        if index < committed {
            self.transcript.bump_cell(index);
            Some(&mut self.transcript.history[index])
        } else {
            self.transcript.active_cell_revision = step(self.transcript.active_cell_revision);
            self.transcript.history_version = step(self.transcript.history_version);
            match &mut self.transcript.active_cell {
                Some(active) => {
                    if index - committed < active.entries.len() {
                        Some(&mut active.entries[index - committed])
                    } else {
                        None
                    }
                },
                None => None,
            }
        }
    }
}

// ---------------------------------------------------------------------------
// Interrupted answers
// ---------------------------------------------------------------------------

/// What marks the text of an answer that was broken off.
pub const INTERRUPTED_MARK: &'static str = "[interrupted]";

/// The text of an answer that was broken off: marked in front, once.
pub open spec fn marked_interrupted(content: Seq<char>) -> Seq<char> {
    if content.len() == 0 {
        INTERRUPTED_MARK@
    } else if has_prefix(content, INTERRUPTED_MARK@) {
        content
    } else {
        "[interrupted] "@ + content
    }
}

/// Marking the text of a broken-off answer twice marks it once.
pub proof fn marking_is_done_once(content: Seq<char>)
    ensures
        marked_interrupted(marked_interrupted(content)) == marked_interrupted(content),
{
    reveal_strlit("[interrupted]");
    reveal_strlit("[interrupted] ");
    let marked = marked_interrupted(content);
    assert(has_prefix(marked, INTERRUPTED_MARK@)) by {
        assert(marked.take(13) =~= INTERRUPTED_MARK@);
    }
}

fn mark_interrupted(content: String) -> (res: String)
    ensures
        res@ == marked_interrupted(content@),
{
    if content.as_str().unicode_len() == 0 {
        INTERRUPTED_MARK.to_owned()
    } else if starts_with(content.as_str(), INTERRUPTED_MARK) {
        content
    } else {
        let mut out = "[interrupted] ".to_owned();
        out.append(content.as_str());
        out
    }
}

/// A streaming answer once it is broken off; other cells as they are.
pub open spec fn is_broken_off(after: HistoryCell, before: HistoryCell) -> bool {
    match before {
        HistoryCell::Assistant { content, .. } => after matches HistoryCell::Assistant {
            content: marked,
            streaming,
        } && !streaming && marked@ == marked_interrupted(content@),
        _ => after == before,
    }
}

fn break_off(cell: HistoryCell) -> (res: HistoryCell)
    ensures
        is_broken_off(res, cell),
{
    match cell {
        HistoryCell::Assistant { content, .. } => HistoryCell::Assistant {
            content: mark_interrupted(content),
            streaming: false,
        },
        other => other,
    }
}

impl App {
    /// Marks the answer that streams as broken off, and keeps what came of it.
    pub fn finalize_streaming_assistant_as_interrupted(&mut self)
        ensures
            old(self).transcript.streaming_message_index is None ==> *final(self) == *old(self),
            old(self).transcript.streaming_message_index matches Some(index) ==> ({
                let t = final(self).transcript;
                let before = old(self).transcript;
                &&& *final(self) == old(self).with_transcript(t)
                &&& t.history@.len() == before.history@.len()
                &&& forall|i: int|
                    0 <= i < before.history@.len() && i != index ==> #[trigger] t.history@[i]
                        == before.history@[i]
                &&& index < before.history@.len() ==> is_broken_off(
                    t.history@[index as int],
                    before.history@[index as int],
                )
                &&& (TranscriptState {
                    history: before.history,
                    streaming_message_index: before.streaming_message_index,
                    ..t
                }).is_bumped(before, index as int)
                &&& t.streaming_message_index is None
            }),
    {
        let index: usize = match self.transcript.streaming_message_index.take() {
            Some(index) => index,
            None => {
                return;
            },
        };
        if index < self.transcript.history.len() {
            let cell = self.transcript.history.remove(index);
            self.transcript.history.insert(index, break_off(cell));
        }
        self.bump_history_cell(index);
    }
}

} // verus!
