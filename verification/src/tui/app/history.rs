//! Events that change the transcript, and scrolling in it.

use std::collections::{BTreeMap, HashMap};

use vstd::prelude::*;

use crate::tui::app::transcripts::HISTORY_SOFT_CAP;
use crate::tui::app::{App, TranscriptState};
use crate::tui::cells::{step, stepped, ContextReference, HistoryCell, SessionContextReference};
use crate::tui::references::session_references;
use crate::tui::tables::{
    below, cells_below, retain_below, retain_cells_below, values_below,
};
use crate::tui::viewport::{TranscriptScroll, ViewportState};

verus! {

// ---------------------------------------------------------------------------
// Scrolling
// ---------------------------------------------------------------------------

/// How far a scroll goes, as far as the counter reaches.
pub open spec fn scroll_amount(amount: usize) -> int {
    if amount <= i32::MAX {
        amount as int
    } else {
        i32::MAX as int
    }
}

/// A scroll distance within the counter's reach.
pub open spec fn clamped_delta(delta: int) -> int {
    if delta < i32::MIN {
        i32::MIN as int
    } else if delta > i32::MAX {
        i32::MAX as int
    } else {
        delta
    }
}

fn scroll_step(amount: usize) -> (res: i64)
    ensures
        res == scroll_amount(amount),
        0 <= res <= i32::MAX,
{
    if amount <= 0x7fff_ffff {
        amount as i64
    } else {
        0x7fff_ffff
    }
}

fn clamp_delta(delta: i64) -> (res: i32)
    ensures
        res == clamped_delta(delta as int),
{
    if delta < -0x8000_0000 {
        i32::MIN
    } else if delta > 0x7fff_ffff {
        i32::MAX
    } else {
        delta as i32
    }
}

impl App {
    /// The application once the user scrolled by `delta` lines.
    pub open spec fn scrolled(self, delta: int) -> App {
        App {
            viewport: ViewportState {
                pending_scroll_delta: clamped_delta(self.viewport.pending_scroll_delta + delta) as i32,
                ..self.viewport
            },
            user_scrolled_during_stream: true,
            needs_redraw: true,
            ..self
        }
    }

    /// Scrolls towards the beginning.
    pub fn scroll_up(&mut self, amount: usize)
        ensures
            *final(self) == old(self).scrolled(-scroll_amount(amount)),
    {
        let delta = scroll_step(amount);
        self.viewport.pending_scroll_delta = clamp_delta(
            (self.viewport.pending_scroll_delta as i64) - delta,
        );
        self.user_scrolled_during_stream = true;
        self.needs_redraw = true;
    }

    /// Scrolls towards the end.
    pub fn scroll_down(&mut self, amount: usize)
        ensures
            *final(self) == old(self).scrolled(scroll_amount(amount)),
    {
        let delta = scroll_step(amount);
        self.viewport.pending_scroll_delta = clamp_delta(
            (self.viewport.pending_scroll_delta as i64) + delta,
        );
        self.user_scrolled_during_stream = true;
        self.needs_redraw = true;
    }

    /// The application once the transcript is scrolled to its end.
    pub open spec fn at_bottom(self) -> App {
        App {
            viewport: self.viewport.at_bottom(),
            user_scrolled_during_stream: false,
            needs_redraw: true,
            ..self
        }
    }

    /// Scrolls to the end.
    pub fn scroll_to_bottom(&mut self)
        ensures
            *final(self) == old(self).at_bottom(),
    {
        self.viewport.transcript_scroll = TranscriptScroll::to_bottom();
        self.viewport.pending_scroll_delta = 0;
        self.viewport.jump_to_latest_button_area = None;
        self.user_scrolled_during_stream = false;
        self.needs_redraw = true;
    }

    /// New cells are followed: the end is shown, nothing is selected, and the
    /// user has not scrolled.
    pub open spec fn follows_transcript(self) -> bool {
        self.viewport.follows_tail() && !self.user_scrolled_during_stream
    }

    /// The application with this transcript, scrolled to the end where new
    /// cells are followed.
    pub open spec fn with_transcript_followed(self, transcript: TranscriptState, redraw: bool) -> App {
        let after = App { transcript, needs_redraw: self.needs_redraw || redraw, ..self };
        if self.follows_transcript() {
            after.at_bottom()
        } else {
            after
        }
    }

    /// The application with this transcript.
    pub open spec fn with_transcript(self, transcript: TranscriptState) -> App {
        App { transcript, needs_redraw: true, ..self }
    }

    /// Takes a change of the screen's size: nothing is laid out or selected any
    /// more, and the end is shown.
    pub fn handle_resize(&mut self, width: u16, height: u16)
        ensures
            final(self).viewport.is_fresh(),
            final(self).transcript.is_resynced(
                old(self).transcript,
                stepped(old(self).transcript.history_version),
            ),
            *final(self) == (App {
                viewport: final(self).viewport,
                transcript: final(self).transcript,
                needs_redraw: true,
                ..*old(self)
            }),
    {
        self.viewport = ViewportState::default();
        self.mark_history_updated();
    }
}

// ---------------------------------------------------------------------------
// Adding and removing cells
// ---------------------------------------------------------------------------

/// What is left of a fan-out card's place once cells from `n` on are gone.
pub open spec fn index_below(index: Option<usize>, n: usize) -> Option<usize> {
    match index {
        Some(i) if i < n => Some(i),
        _ => None,
    }
}

impl TranscriptState {
    /// The transcript with its cells from `n` on gone, and what was recorded
    /// about them.
    pub open spec fn is_truncated(self, before: TranscriptState, n: usize) -> bool {
        &&& self.history@ == before.history@.take(n as int)
        &&& self.history_revisions@ == (if before.history_revisions@.len() > n {
            before.history_revisions@.take(n as int)
        } else {
            before.history_revisions@
        })
        &&& self.tool_cells@ == values_below(before.tool_cells@, n)
        &&& self.tool_details_by_cell@ == below(before.tool_details_by_cell@, n)
        &&& self.context_references_by_cell@ == below(before.context_references_by_cell@, n)
        &&& self.session_context_references@ == session_references(
            self.context_references_by_cell@,
        )
        &&& self.subagent_card_index@ == values_below(before.subagent_card_index@, n)
        &&& self.last_fanout_card_index == index_below(before.last_fanout_card_index, n)
        &&& self.collapsed_cells@ == cells_below(before.collapsed_cells@, n)
        &&& self.collapsed_cell_map@.len() == 0
        &&& self.history_version == stepped(before.history_version)
        &&& self.next_history_revision == before.next_history_revision
        &&& self.differs_in_records(before)
    }

    fn truncate_to(&mut self, n: usize)
        requires
            n < old(self).history@.len(),
        ensures
            final(self).is_truncated(*old(self), n),
    {
        let ghost before = *self;
        self.history.truncate(n);
        if self.history_revisions.len() > n {
            self.history_revisions.truncate(n);
        }
        self.tool_cells.retain_below(n);
        retain_below(&mut self.tool_details_by_cell, n);
        retain_below(&mut self.context_references_by_cell, n);
        self.rebuild_references();
        self.subagent_card_index.retain_below(n);
        self.last_fanout_card_index = match self.last_fanout_card_index {
            Some(i) => if i < n {
                Some(i)
            } else {
                None
            },
            None => None,
        };
        retain_cells_below(&mut self.collapsed_cells, n);
        self.collapsed_cell_map = Vec::new();
        self.history_version = step(self.history_version);
        proof {
            assert(self.history@ =~= before.history@.take(n as int));
            if before.history_revisions@.len() > n {
                assert(self.history_revisions@ =~= before.history_revisions@.take(n as int));
            }
        }
    }

    /// The transcript with its last cell gone.
    pub open spec fn is_popped(self, before: TranscriptState) -> bool {
        let last = (before.history@.len() - 1) as usize;
        &&& self.history@ == before.history@.drop_last()
        &&& self.history_revisions@ == (if before.history_revisions@.len() > 0 {
            before.history_revisions@.drop_last()
        } else {
            before.history_revisions@
        })
        &&& self.context_references_by_cell@ == before.context_references_by_cell@.remove(last)
        &&& self.session_context_references@ == session_references(
            self.context_references_by_cell@,
        )
        &&& self == (TranscriptState {
            history: self.history,
            history_revisions: self.history_revisions,
            context_references_by_cell: self.context_references_by_cell,
            session_context_references: self.session_context_references,
            history_version: stepped(before.history_version),
            ..before
        })
    }

    /// The transcript without cells.
    pub open spec fn is_cleared(self, before: TranscriptState) -> bool {
        &&& self.history@.len() == 0
        &&& self.history_revisions@.len() == 0
        &&& self.context_references_by_cell@ == Map::<usize, Vec<SessionContextReference>>::empty()
        &&& self.session_context_references@.len() == 0
        &&& self.session_artifacts@.len() == 0
        &&& self.collapsed_cells@ == Set::<usize>::empty()
        &&& self.collapsed_cell_map@.len() == 0
        &&& self == (TranscriptState {
            history: self.history,
            history_revisions: self.history_revisions,
            context_references_by_cell: self.context_references_by_cell,
            session_context_references: self.session_context_references,
            session_artifacts: self.session_artifacts,
            collapsed_cells: self.collapsed_cells,
            collapsed_cell_map: self.collapsed_cell_map,
            history_version: stepped(before.history_version),
            ..before
        })
    }
}

/// Truncating the transcript leaves nothing recorded about a cell that is gone,
/// and keeps what is recorded about the others.
pub proof fn truncation_keeps_records_of_cells(
    after: TranscriptState,
    before: TranscriptState,
    n: usize,
    cell: usize,
    name: Seq<char>,
)
    requires
        after.is_truncated(before, n),
        n <= before.history@.len(),
    ensures
        after.tool_details_by_cell@.contains_key(cell) <==> cell < n
            && before.tool_details_by_cell@.contains_key(cell),
        after.tool_details_by_cell@.contains_key(cell) ==> after.tool_details_by_cell@[cell]
            == before.tool_details_by_cell@[cell],
        after.tool_cells@.contains_key(name) ==> after.tool_cells@[name] < after.history@.len()
            && after.tool_cells@[name] == before.tool_cells@[name],
        before.in_step() ==> after.in_step(),
{
}

/// Removing cells keeps one revision for each cell that is left.
pub proof fn removal_keeps_step(after: TranscriptState, before: TranscriptState)
    requires
        before.in_step(),
        after.is_cleared(before) || (before.history@.len() > 0 && after.is_popped(before)),
    ensures
        after.in_step(),
{
}

fn single(cell: HistoryCell) -> (res: Vec<HistoryCell>)
    ensures
        res@ == seq![cell],
{
    let mut cells: Vec<HistoryCell> = Vec::new();
    cells.push(cell);
    proof { assert(cells@ =~= seq![cell]); }
    cells
}

impl App {
    pub(crate) fn follow_transcript(&mut self)
        ensures
            *final(self) == (if old(self).follows_transcript() {
                old(self).at_bottom()
            } else {
                *old(self)
            }),
    {
        if self.viewport.is_following_tail() && !self.user_scrolled_during_stream {
            self.scroll_to_bottom();
        }
    }

    /// Adds a cell, and shows it where new cells are followed.
    pub fn add_message(&mut self, msg: HistoryCell)
        requires
            old(self).transcript.can_grow(1),
        ensures
            final(self).transcript.is_grown(old(self).transcript, seq![msg]),
            *final(self) == old(self).with_transcript_followed(
                final(self).transcript,
                old(self).transcript.history@.len() + 1 > HISTORY_SOFT_CAP,
            ),
    {
        let folded = self.transcript.grow(single(msg));
        self.redraw_if(folded);
        self.follow_transcript();
    }

    /// Adds a cell.
    pub fn push_history_cell(&mut self, cell: HistoryCell)
        requires
            old(self).transcript.can_grow(1),
        ensures
            final(self).transcript.is_grown(old(self).transcript, seq![cell]),
            *final(self) == old(self).with_transcript(final(self).transcript),
    {
        let _ = self.transcript.grow(single(cell));
        self.needs_redraw = true;
    }

    /// Adds cells.
    pub fn extend_history(&mut self, cells: Vec<HistoryCell>)
        requires
            old(self).transcript.can_grow(cells@.len()),
        ensures
            final(self).transcript.is_grown(old(self).transcript, cells@),
            *final(self) == old(self).with_transcript(final(self).transcript),
    {
        let _ = self.transcript.grow(cells);
        self.needs_redraw = true;
    }

    /// Takes note that the cells changed in some way: there is one revision for
    /// each cell again, and cells that had one keep it.
    pub fn mark_history_updated(&mut self)
        ensures
            final(self).transcript.is_resynced(
                old(self).transcript,
                stepped(old(self).transcript.history_version),
            ),
            final(self).transcript.in_step(),
            *final(self) == old(self).with_transcript(final(self).transcript),
    {
        self.transcript.history_version = step(self.transcript.history_version);
        self.transcript.resync_revisions();
        self.needs_redraw = true;
    }

    /// Makes one revision for each cell.
    pub fn resync_history_revisions(&mut self)
        ensures
            final(self).transcript.is_resynced(
                old(self).transcript,
                old(self).transcript.history_version,
            ),
            final(self).transcript.in_step(),
            *final(self) == (App { transcript: final(self).transcript, ..*old(self) }),
    {
        self.transcript.resync_revisions();
    }

    /// Marks a cell as changed.
    pub fn bump_history_cell(&mut self, idx: usize)
        ensures
            final(self).transcript.is_bumped(old(self).transcript, idx as int),
            final(self).transcript.in_step(),
            *final(self) == old(self).with_transcript(final(self).transcript),
    {
        self.transcript.bump_cell(idx);
        self.needs_redraw = true;
    }

    /// Removes every cell, and what belongs to the session's cells.
    pub fn clear_history(&mut self)
        ensures
            final(self).transcript.is_cleared(old(self).transcript),
            *final(self) == old(self).with_transcript(final(self).transcript),
    {
        self.transcript.history = Vec::new();
        self.transcript.history_revisions = Vec::new();
        self.transcript.context_references_by_cell.clear();
        self.transcript.session_context_references = Vec::new();
        self.transcript.session_artifacts = Vec::new();
        self.transcript.collapsed_cells.clear();
        self.transcript.collapsed_cell_map = Vec::new();
        self.transcript.history_version = step(self.transcript.history_version);
        self.needs_redraw = true;
    }

    /// Removes the last cell and hands it over.
    pub fn pop_history(&mut self) -> (res: Option<HistoryCell>)
        ensures
            old(self).transcript.history@.len() > 0 ==> res == Some(
                old(self).transcript.history@.last(),
            ) && final(self).transcript.is_popped(old(self).transcript) && *final(self) == old(
                self,
            ).with_transcript(final(self).transcript),
            old(self).transcript.history@.len() == 0 ==> res is None && *final(self) == *old(self),
    {
        if self.transcript.history.len() == 0 {
            return None;
        }
        let res = self.transcript.history.pop();
        if self.transcript.history_revisions.len() > 0 {
            let _ = self.transcript.history_revisions.pop();
        }
        let last: usize = self.transcript.history.len();
        let _ = self.transcript.context_references_by_cell.remove(&last);
        self.transcript.rebuild_references();
        self.transcript.history_version = step(self.transcript.history_version);
        self.needs_redraw = true;
        res
    }

    /// Removes the cells from `new_len` on, and what is recorded about them.
    pub fn truncate_history_to(&mut self, new_len: usize)
        ensures
            new_len >= old(self).transcript.history@.len() ==> *final(self) == *old(self),
            new_len < old(self).transcript.history@.len() ==> final(self).transcript.is_truncated(
                old(self).transcript,
                new_len,
            ) && *final(self) == old(self).with_transcript(final(self).transcript),
    {
        if new_len >= self.transcript.history.len() {
            return;
        }
        self.transcript.truncate_to(new_len);
        self.needs_redraw = true;
    }
}

// ---------------------------------------------------------------------------
// Context references
// ---------------------------------------------------------------------------

/// References with the message they belong to.
pub open spec fn for_message(
    references: Seq<ContextReference>,
    message_index: usize,
) -> Seq<SessionContextReference> {
    references.map_values(
        |reference: ContextReference| SessionContextReference { message_index, reference },
    )
}

/// Those of the references whose messages are shown in a cell, in order.
pub open spec fn references_of_cell(
    references: Seq<SessionContextReference>,
    message_to_cell: Map<usize, usize>,
    cell: usize,
) -> Seq<SessionContextReference>
    decreases references.len(),
{
    if references.len() == 0 {
        Seq::empty()
    } else {
        let rest = references_of_cell(references.drop_last(), message_to_cell, cell);
        let r = references.last();
        if message_to_cell.contains_key(r.message_index) && message_to_cell[r.message_index] == cell {
            rest.push(r)
        } else {
            rest
        }
    }
}

/// A map of references by cell holds these for each cell.
pub open spec fn groups_by_cell(
    cells: Map<usize, Vec<SessionContextReference>>,
    references: Seq<SessionContextReference>,
    message_to_cell: Map<usize, usize>,
) -> bool {
    forall|cell: usize|
        {
            let own = #[trigger] references_of_cell(references, message_to_cell, cell);
            &&& cells.contains_key(cell) <==> own.len() > 0
            &&& cells.contains_key(cell) ==> cells[cell]@ == own
        }
}

impl App {
    /// Records the references of a message that is shown in a cell.
    pub fn record_context_references(
        &mut self,
        history_cell: usize,
        message_index: usize,
        references: Vec<ContextReference>,
    )
        ensures
            references@.len() == 0 ==> *final(self) == *old(self),
            references@.len() > 0 ==> ({
                let t = final(self).transcript;
                let before = old(self).transcript;
                &&& t.context_references_by_cell@.contains_key(history_cell)
                &&& t.context_references_by_cell@[history_cell]@ == for_message(
                    references@,
                    message_index,
                )
                &&& t.context_references_by_cell@ == before.context_references_by_cell@.insert(
                    history_cell,
                    t.context_references_by_cell@[history_cell],
                )
                &&& t.session_context_references@ == session_references(
                    t.context_references_by_cell@,
                )
                &&& *final(self) == old(self).with_transcript(
                    TranscriptState {
                        context_references_by_cell: t.context_references_by_cell,
                        session_context_references: t.session_context_references,
                        ..before
                    },
                )
            }),
    {
        if references.len() == 0 {
            return;
        }
        let mut records: Vec<SessionContextReference> = Vec::new();
        let mut i: usize = 0;
        while i < references.len()
            invariant
                i <= references@.len(),
                records@.len() == i,
                forall|k: int|
                    0 <= k < i ==> #[trigger] records@[k] == (SessionContextReference {
                        message_index,
                        reference: references@[k],
                    }),
            decreases references@.len() - i,
        {
            records.push(
                SessionContextReference { message_index, reference: references[i].clone() },
            );
            i += 1;
        }
        proof { assert(records@ =~= for_message(references@, message_index)); }
        self.transcript.context_references_by_cell.insert(history_cell, records);
        self.transcript.rebuild_references();
        self.needs_redraw = true;
    }

    /// Takes over the references of a stored session, for the messages that are
    /// shown in a cell.
    pub fn sync_context_references_from_session(
        &mut self,
        references: &[SessionContextReference],
        message_to_cell: &HashMap<usize, usize>,
    )
        ensures
            ({
                let t = final(self).transcript;
                &&& groups_by_cell(
                    t.context_references_by_cell@,
                    references@,
                    message_to_cell@,
                )
                &&& t.session_context_references@ == session_references(
                    t.context_references_by_cell@,
                )
                &&& *final(self) == (App {
                    transcript: TranscriptState {
                        context_references_by_cell: t.context_references_by_cell,
                        session_context_references: t.session_context_references,
                        ..old(self).transcript
                    },
                    ..*old(self)
                })
            }),
    {
        let mut cells: BTreeMap<usize, Vec<SessionContextReference>> = BTreeMap::new();
        let ghost all = references@;
        let ghost places = message_to_cell@;
        let mut i: usize = 0;
        proof {
            assert(all.take(0) =~= Seq::empty());
        }
        while i < references.len()
            invariant
                i <= references@.len() == all.len(),
                all == references@,
                places == message_to_cell@,
                groups_by_cell(cells@, all.take(i as int), places),
            decreases references@.len() - i,
        {
            let ghost before = cells@;
            proof {
                assert(all.take(i + 1).drop_last() =~= all.take(i as int));
                assert(all.take(i + 1).last() == references@[i as int]);
            }
            if let Some(cell) = message_to_cell.get(&references[i].message_index) {
                let cell: usize = *cell;
                let ghost own = references_of_cell(all.take(i as int), places, cell);
                let mut records = match cells.remove(&cell) {
                    Some(records) => records,
                    None => Vec::new(),
                };
                proof { assert(records@ =~= own); }
                records.push(references[i].clone());
                proof {
                    assert(records@ =~= references_of_cell(all.take(i + 1), places, cell));
                }
                cells.insert(cell, records);
                proof {
                    assert forall|c: usize|
                        {
                            let o = #[trigger] references_of_cell(all.take(i + 1), places, c);
                            &&& cells@.contains_key(c) <==> o.len() > 0
                            &&& cells@.contains_key(c) ==> cells@[c]@ == o
                        } by {
                        let o = references_of_cell(all.take(i as int), places, c);
                        if c != cell {
                            assert(before.contains_key(c) <==> o.len() > 0);
                        }
                    }
                }
            } else {
                proof {
                    assert forall|c: usize|
                        {
                            let o = #[trigger] references_of_cell(all.take(i + 1), places, c);
                            &&& cells@.contains_key(c) <==> o.len() > 0
                            &&& cells@.contains_key(c) ==> cells@[c]@ == o
                        } by {
                        let o = references_of_cell(all.take(i as int), places, c);
                        assert(before.contains_key(c) <==> o.len() > 0);
                    }
                }
            }
            i += 1;
        }
        proof { assert(all.take(i as int) =~= all); }
        self.transcript.context_references_by_cell = cells;
        self.transcript.rebuild_references();
    }
}

} // verus!
