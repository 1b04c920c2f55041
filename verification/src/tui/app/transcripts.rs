//! The transcript: adding and removing cells, and keeping what is recorded
//! about cells in step.

use vstd::prelude::*;

use crate::text::{decimal, decimal_text};
use crate::tui::app::TranscriptState;
use crate::tui::cells::{step, stepped, HistoryCell};
use crate::tui::references::{collect_references, session_references};
use crate::tui::tables::{
    cells_moved_down, moved_down, shift_cells_down, shift_down, values_lowered,
};

verus! {

/// Beyond this many cells the oldest ones are folded into one.
pub const HISTORY_SOFT_CAP: usize = 5_000;

/// How many cells are folded at a time.
pub const HISTORY_FOLD_BATCH: usize = 1_000;

/// What stands behind the count in the summary of folded cells.
pub const FOLDED_SUMMARY: &'static str = " older transcript cells folded to bound memory. Use /sessions to load a prior session snapshot if needed.";

// ---------------------------------------------------------------------------
// Revisions
// ---------------------------------------------------------------------------

/// The counter after `n` steps.
pub open spec fn advanced(counter: u64, n: nat) -> u64
    decreases n,
{
    if n == 0 {
        counter
    } else {
        stepped(advanced(counter, (n - 1) as nat))
    }
}

/// `n` revisions in a row.
pub open spec fn fresh_revisions(counter: u64, n: nat) -> Seq<u64> {
    Seq::new(n, |i: int| advanced(counter, i as nat))
}

/// The revisions once there are as many as cells: missing ones are added, and
/// those without a cell are dropped.
pub open spec fn resynced(revisions: Seq<u64>, counter: u64, cells: nat) -> Seq<u64> {
    if revisions.len() <= cells {
        revisions + fresh_revisions(counter, (cells - revisions.len()) as nat)
    } else {
        revisions.take(cells as int)
    }
}

/// The counter once there are as many revisions as cells.
pub open spec fn resynced_counter(revisions: nat, counter: u64, cells: nat) -> u64 {
    if revisions <= cells {
        advanced(counter, (cells - revisions) as nat)
    } else {
        counter
    }
}

proof fn lemma_fresh_push(counter: u64, n: nat)
    ensures
        fresh_revisions(counter, n + 1) == fresh_revisions(counter, n).push(advanced(counter, n)),
{
    assert(fresh_revisions(counter, n + 1) =~= fresh_revisions(counter, n).push(
        advanced(counter, n),
    ));
}

/// No revision comes twice until the counter has gone all the way round.
pub proof fn fresh_revisions_are_distinct(counter: u64, n: nat, i: int, j: int)
    requires
        0 <= i < j < n,
        n <= u64::MAX,
    ensures
        fresh_revisions(counter, n)[i] != fresh_revisions(counter, n)[j],
{
    lemma_advanced(counter, i as nat);
    lemma_advanced(counter, j as nat);
}

proof fn lemma_advanced(counter: u64, n: nat)
    requires
        n <= u64::MAX,
    ensures
        advanced(counter, n) == (if counter + n <= u64::MAX {
            counter + n
        } else {
            counter + n - u64::MAX - 1
        }),
    decreases n,
{
    if n > 0 {
        lemma_advanced(counter, (n - 1) as nat);
    }
}

impl TranscriptState {
    /// There is one revision for each cell.
    pub open spec fn in_step(self) -> bool {
        self.history_revisions@.len() == self.history@.len()
    }

    /// The transcript with other revisions.
    pub open spec fn has_revisions(self, before: TranscriptState, revisions: Seq<u64>, counter: u64, version: u64) -> bool {
        &&& self.history_revisions@ == revisions
        &&& self == (TranscriptState {
            history_revisions: self.history_revisions,
            next_history_revision: counter,
            history_version: version,
            ..before
        })
    }

    /// The transcript with one revision for each cell.
    pub open spec fn is_resynced(self, before: TranscriptState, version: u64) -> bool {
        self.has_revisions(
            before,
            resynced(before.history_revisions@, before.next_history_revision, before.history@.len()),
            resynced_counter(
                before.history_revisions@.len(),
                before.next_history_revision,
                before.history@.len(),
            ),
            version,
        )
    }

    /// The transcript with one revision for each cell and a new one for cell
    /// `index`, where there is such a cell.
    pub open spec fn is_bumped(self, before: TranscriptState, index: int) -> bool {
        let revisions = resynced(
            before.history_revisions@,
            before.next_history_revision,
            before.history@.len(),
        );
        let counter = resynced_counter(
            before.history_revisions@.len(),
            before.next_history_revision,
            before.history@.len(),
        );
        if index < before.history@.len() {
            self.has_revisions(
                before,
                revisions.update(index, counter),
                stepped(counter),
                stepped(before.history_version),
            )
        } else {
            self.has_revisions(before, revisions, counter, stepped(before.history_version))
        }
    }

    pub(crate) fn fresh_revision(&mut self) -> (res: u64)
        ensures
            res == old(self).next_history_revision,
            *final(self) == (TranscriptState {
                next_history_revision: stepped(old(self).next_history_revision),
                ..*old(self)
            }),
    {
        let revision: u64 = self.next_history_revision;
        self.next_history_revision = step(self.next_history_revision);
        revision
    }

    /// Makes one revision for each cell.
    pub fn resync_revisions(&mut self)
        ensures
            final(self).is_resynced(*old(self), old(self).history_version),
            final(self).in_step(),
    {
        let cells: usize = self.history.len();
        let ghost before = *self;
        let ghost start = self.history_revisions@;
        if self.history_revisions.len() <= cells {
            proof {
                assert(fresh_revisions(before.next_history_revision, 0) =~= Seq::empty());
                assert(start + Seq::<u64>::empty() =~= start);
            }
            while self.history_revisions.len() < cells
                invariant
                    start == before.history_revisions@,
                    cells == before.history@.len(),
                    start.len() <= self.history_revisions@.len() <= cells,
                    self.has_revisions(
                        before,
                        start + fresh_revisions(
                            before.next_history_revision,
                            (self.history_revisions@.len() - start.len()) as nat,
                        ),
                        advanced(
                            before.next_history_revision,
                            (self.history_revisions@.len() - start.len()) as nat,
                        ),
                        before.history_version,
                    ),
                decreases cells - self.history_revisions@.len(),
            {
                let ghost n = (self.history_revisions@.len() - start.len()) as nat;
                proof { lemma_fresh_push(before.next_history_revision, n); }
                let revision = self.fresh_revision();
                self.history_revisions.push(revision);
                proof {
                    assert(start + fresh_revisions(before.next_history_revision, n + 1)
                        =~= (start + fresh_revisions(before.next_history_revision, n)).push(
                        revision,
                    ));
                }
            }
        } else {
            self.history_revisions.truncate(cells);
            proof { assert(self.history_revisions@ =~= start.take(cells as int)); }
        }
    }

    /// Marks a cell as changed.
    pub fn bump_cell(&mut self, index: usize)
        ensures
            final(self).is_bumped(*old(self), index as int),
            final(self).in_step(),
    {
        self.resync_revisions();
        if index < self.history_revisions.len() {
            let revision = self.fresh_revision();
            self.history_revisions.set(index, revision);
        }
        self.history_version = step(self.history_version);
    }
}

/// Marking a cell as changed keeps the revisions of all other cells.
pub proof fn bumping_keeps_other_revisions(
    after: TranscriptState,
    before: TranscriptState,
    index: int,
    other: int,
)
    requires
        before.in_step(),
        after.is_bumped(before, index),
        0 <= other < before.history@.len(),
        other != index,
        0 <= index,
    ensures
        after.in_step(),
        after.history_revisions@[other] == before.history_revisions@[other],
{
}

// ---------------------------------------------------------------------------
// Adding cells
// ---------------------------------------------------------------------------

/// A cell that stands for the first `n` cells.
pub open spec fn is_placeholder(cell: HistoryCell, n: nat) -> bool {
    cell matches HistoryCell::ArchivedContext {
        level,
        range,
        tokens,
        density,
        model,
        timestamp,
        summary,
    } && level == 0 && range@ == "cells 0-"@ + decimal((n - 1) as nat) && tokens@.len() == 0
        && density@.len() == 0 && model@.len() == 0 && timestamp@.len() == 0 && summary@ == decimal(
        n,
    ) + FOLDED_SUMMARY@
}

impl TranscriptState {
    /// What is recorded about cells once the first `n` cells are gone.
    pub open spec fn has_records_moved_down(self, before: TranscriptState, n: usize) -> bool {
        &&& self.tool_cells@ == values_lowered(before.tool_cells@, n)
        &&& self.tool_details_by_cell@ == moved_down(before.tool_details_by_cell@, n)
        &&& self.context_references_by_cell@ == moved_down(before.context_references_by_cell@, n)
        &&& self.session_context_references@ == session_references(
            self.context_references_by_cell@,
        )
        &&& self.subagent_card_index@ == values_lowered(before.subagent_card_index@, n)
        &&& self.last_fanout_card_index == (match before.last_fanout_card_index {
            Some(i) if i >= n => Some((i - n) as usize),
            _ => None,
        })
        &&& self.collapsed_cells@ == cells_moved_down(before.collapsed_cells@, n)
        &&& self.collapsed_cell_map@.len() == 0
    }

    /// The transcript with these cells and revisions, and what is recorded
    /// about cells as it is here.
    pub open spec fn differs_in_records(self, before: TranscriptState) -> bool {
        self == (TranscriptState {
            history: self.history,
            history_revisions: self.history_revisions,
            next_history_revision: self.next_history_revision,
            history_version: self.history_version,
            tool_cells: self.tool_cells,
            tool_details_by_cell: self.tool_details_by_cell,
            context_references_by_cell: self.context_references_by_cell,
            session_context_references: self.session_context_references,
            subagent_card_index: self.subagent_card_index,
            last_fanout_card_index: self.last_fanout_card_index,
            collapsed_cells: self.collapsed_cells,
            collapsed_cell_map: self.collapsed_cell_map,
            ..before
        })
    }

    /// The transcript once its first cells are folded into one.
    pub open spec fn is_folded(self, before: TranscriptState) -> bool {
        let n = HISTORY_FOLD_BATCH;
        &&& self.history@.len() == before.history@.len() - n + 1
        &&& is_placeholder(self.history@[0], n as nat)
        &&& self.history@.skip(1) == before.history@.skip(n as int)
        &&& self.history_revisions@ == seq![before.next_history_revision]
            + before.history_revisions@.skip(n as int)
        &&& self.next_history_revision == stepped(before.next_history_revision)
        &&& self.history_version == stepped(before.history_version)
        &&& self.has_records_moved_down(before, n)
        &&& self.differs_in_records(before)
    }

    /// There are enough revisions for the cells that have to be folded once
    /// `added` cells are added.
    pub open spec fn can_grow(self, added: nat) -> bool {
        self.history@.len() + added > HISTORY_SOFT_CAP ==> self.history_revisions@.len() + added
            >= HISTORY_FOLD_BATCH
    }

    /// The transcript once cells are added. Beyond the cap, the oldest cells
    /// are folded into one.
    pub open spec fn is_grown(self, before: TranscriptState, cells: Seq<HistoryCell>) -> bool {
        let all = before.history@ + cells;
        let revisions = before.history_revisions@ + fresh_revisions(
            before.next_history_revision,
            cells.len(),
        );
        let counter = advanced(before.next_history_revision, cells.len());
        if all.len() <= HISTORY_SOFT_CAP {
            &&& self.history@ == all
            &&& self.history_revisions@ == revisions
            &&& self == (TranscriptState {
                history: self.history,
                history_revisions: self.history_revisions,
                next_history_revision: counter,
                history_version: stepped(before.history_version),
                ..before
            })
        } else {
            let n = HISTORY_FOLD_BATCH;
            &&& self.history@.len() == all.len() - n + 1
            &&& is_placeholder(self.history@[0], n as nat)
            &&& self.history@.skip(1) == all.skip(n as int)
            &&& self.history_revisions@ == seq![counter] + revisions.skip(n as int)
            &&& self.next_history_revision == stepped(counter)
            &&& self.history_version == stepped(stepped(before.history_version))
            &&& self.has_records_moved_down(before, n)
            &&& self.differs_in_records(before)
        }
    }

    pub(crate) fn rebuild_references(&mut self)
        ensures
            final(self).session_context_references@ == session_references(
                old(self).context_references_by_cell@,
            ),
            *final(self) == (TranscriptState {
                session_context_references: final(self).session_context_references,
                ..*old(self)
            }),
    {
        self.session_context_references = collect_references(&self.context_references_by_cell);
    }

    fn move_records_down(&mut self, n: usize)
        ensures
            final(self).has_records_moved_down(*old(self), n),
            final(self).differs_in_records(*old(self)),
            final(self).history == old(self).history,
            final(self).history_revisions == old(self).history_revisions,
            final(self).next_history_revision == old(self).next_history_revision,
            final(self).history_version == old(self).history_version,
    {
        self.tool_cells.shift_down(n);
        shift_down(&mut self.tool_details_by_cell, n);
        shift_down(&mut self.context_references_by_cell, n);
        self.rebuild_references();
        self.subagent_card_index.shift_down(n);
        self.last_fanout_card_index = match self.last_fanout_card_index {
            Some(i) => if i >= n {
                Some(i - n)
            } else {
                None
            },
            None => None,
        };
        shift_cells_down(&mut self.collapsed_cells, n);
        self.collapsed_cell_map = Vec::new();
    }

    /// Adds cells at the end.
    pub(crate) fn push_cells(&mut self, cells: Vec<HistoryCell>)
        ensures
            final(self).history@ == old(self).history@ + cells@,
            final(self).history_revisions@ == old(self).history_revisions@ + fresh_revisions(
                old(self).next_history_revision,
                cells@.len(),
            ),
            *final(self) == (TranscriptState {
                history: final(self).history,
                history_revisions: final(self).history_revisions,
                next_history_revision: advanced(old(self).next_history_revision, cells@.len()),
                ..*old(self)
            }),
    {
        let total: usize = cells.len();
        let mut cells = cells;
        let ghost before = *self;
        let ghost start = self.history_revisions@;
        self.history.append(&mut cells);
        let mut i: usize = 0;
        proof {
            assert(fresh_revisions(before.next_history_revision, 0) =~= Seq::empty());
            assert(start + Seq::<u64>::empty() =~= start);
        }
        let ghost grown = self.history;
        while i < total
            invariant
                i <= total,
                start == before.history_revisions@,
                self.history_revisions@ == start + fresh_revisions(
                    before.next_history_revision,
                    i as nat,
                ),
                *self == (TranscriptState {
                    history: grown,
                    history_revisions: self.history_revisions,
                    next_history_revision: advanced(before.next_history_revision, i as nat),
                    ..before
                }),
            decreases total - i,
        {
            proof { lemma_fresh_push(before.next_history_revision, i as nat); }
            let revision = self.fresh_revision();
            self.history_revisions.push(revision);
            proof {
                assert(start + fresh_revisions(before.next_history_revision, (i + 1) as nat)
                    =~= (start + fresh_revisions(before.next_history_revision, i as nat)).push(
                    revision,
                ));
            }
            i += 1;
        }
    }

    fn make_placeholder(n: usize) -> (res: HistoryCell)
        requires
            n > 0,
        ensures
            is_placeholder(res, n as nat),
    {
        let mut range = String::new();
        range.append("cells 0-");
        let last = decimal_text((n - 1) as u64);
        range.append(last.as_str());
        let mut summary = decimal_text(n as u64);
        summary.append(FOLDED_SUMMARY);
        HistoryCell::ArchivedContext {
            level: 0,
            range,
            tokens: String::new(),
            density: String::new(),
            model: String::new(),
            timestamp: String::new(),
            summary,
        }
    }

    /// Folds the oldest cells into one where there are too many. Returns
    /// whether there were.
    fn fold_if_needed(&mut self) -> (res: bool)
        requires
            old(self).can_grow(0),
        ensures
            res == (old(self).history@.len() > HISTORY_SOFT_CAP),
            res ==> final(self).is_folded(*old(self)),
            !res ==> *final(self) == *old(self),
    {
        if self.history.len() <= HISTORY_SOFT_CAP {
            return false;
        }
        let ghost before = *self;
        let rest = self.history.split_off(HISTORY_FOLD_BATCH);
        self.history = rest;
        let rest_revisions = self.history_revisions.split_off(HISTORY_FOLD_BATCH);
        self.history_revisions = rest_revisions;
        proof {
            assert(self.history@ =~= before.history@.skip(HISTORY_FOLD_BATCH as int));
            assert(self.history_revisions@ =~= before.history_revisions@.skip(
                HISTORY_FOLD_BATCH as int,
            ));
        }
        self.move_records_down(HISTORY_FOLD_BATCH);
        let placeholder = Self::make_placeholder(HISTORY_FOLD_BATCH);
        let revision = self.fresh_revision();
        self.history.insert(0, placeholder);
        self.history_revisions.insert(0, revision);
        self.history_version = step(self.history_version);
        proof {
            assert(self.history@[0] == placeholder);
            assert(self.history@.skip(1) =~= before.history@.skip(HISTORY_FOLD_BATCH as int));
            assert(self.history_revisions@ =~= seq![revision] + before.history_revisions@.skip(
                HISTORY_FOLD_BATCH as int,
            ));
        }
        true
    }

    /// Adds cells at the end. Returns whether older cells were folded.
    pub fn grow(&mut self, cells: Vec<HistoryCell>) -> (res: bool)
        requires
            old(self).can_grow(cells@.len()),
        ensures
            final(self).is_grown(*old(self), cells@),
            res == (old(self).history@.len() + cells@.len() > HISTORY_SOFT_CAP),
    {
        let ghost before = *self;
        self.push_cells(cells);
        self.history_version = step(self.history_version);
        let ghost mid = *self;
        let folded = self.fold_if_needed();
        proof {
            if folded {
                lemma_same_records(*self, mid, before, HISTORY_FOLD_BATCH);
            }
        }
        folded
    }
}

proof fn lemma_same_records(
    after: TranscriptState,
    mid: TranscriptState,
    before: TranscriptState,
    n: usize,
)
    requires
        after.has_records_moved_down(mid, n),
        after.differs_in_records(mid),
        mid == (TranscriptState {
            history: mid.history,
            history_revisions: mid.history_revisions,
            next_history_revision: mid.next_history_revision,
            history_version: mid.history_version,
            ..before
        }),
    ensures
        after.has_records_moved_down(before, n),
        after.differs_in_records(before),
{
}

/// The transcript keeps within its cap once cells are added one at a time.
pub proof fn transcript_is_bounded(after: TranscriptState, before: TranscriptState, cell: HistoryCell)
    requires
        before.history@.len() <= HISTORY_SOFT_CAP,
        after.is_grown(before, seq![cell]),
    ensures
        after.history@.len() <= HISTORY_SOFT_CAP,
        after.history@.last() == cell,
{
    let all = before.history@ + seq![cell];
    if all.len() > HISTORY_SOFT_CAP {
        let n = HISTORY_FOLD_BATCH as int;
        assert(after.history@.skip(1).last() == all.skip(n).last());
        assert(after.history@.last() == after.history@.skip(1).last());
    }
}

/// Adding cells keeps one revision for each cell.
pub proof fn growing_keeps_step(
    after: TranscriptState,
    before: TranscriptState,
    cells: Seq<HistoryCell>,
)
    requires
        before.in_step(),
        after.is_grown(before, cells),
    ensures
        after.in_step(),
{
}

} // verus!
