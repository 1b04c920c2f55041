//! Vim-like movement and deletion in the composer.

use vstd::prelude::*;

use crate::text::{
    after_previous_char, char_count, find_after_previous_char, find_next_char, next_char, to_chars,
};
use crate::tui::composer::{
    lemma_after_previous_char, lemma_line_bounds, lesser, ComposerModel, ComposerState, VimMode,
};

verus! {

impl ComposerModel {
    /// The character under the cursor is deleted. The cursor stays on a
    /// character where there is one.
    pub open spec fn under_cursor_deleted(self) -> ComposerModel {
        if self.cursor >= self.input.len() {
            self
        } else {
            let rest = self.input.len() - 1;
            let cursor = if self.cursor > 0 && self.cursor >= rest {
                rest - 1
            } else {
                self.cursor
            };
            self.edited(self.cursor, self.cursor + 1, Seq::empty(), cursor)
        }
    }

    /// Where the deletion of the cursor's line begins: at the line, or at the
    /// line break before it when it is the last of several lines.
    pub open spec fn line_cut_start(self) -> int {
        if self.line_end() >= self.input.len() && self.line_start() > 0 {
            self.line_start() - 1
        } else {
            self.line_start()
        }
    }

    /// Where the deletion of the cursor's line ends: behind its line break, or
    /// at the end of the text.
    pub open spec fn line_cut_end(self) -> int {
        if self.line_end() < self.input.len() {
            self.line_end() + 1
        } else {
            self.line_end()
        }
    }

    /// The line of the cursor is deleted with one line break.
    pub open spec fn line_deleted(self) -> ComposerModel {
        self.edited(
            self.line_cut_start(),
            self.line_cut_end(),
            Seq::empty(),
            self.line_cut_start(),
        )
    }

    /// The cursor sits on a character rather than behind the last one.
    pub open spec fn in_normal_mode(self) -> ComposerModel {
        let cursor = if self.cursor > 0 && self.cursor >= self.input.len() {
            if self.input.len() > 0 {
                self.input.len() - 1
            } else {
                0
            }
        } else {
            self.cursor
        };
        ComposerModel { vim_mode: VimMode::Normal, vim_pending_d: false, cursor, ..self }
    }

    /// There is a line below the cursor's.
    pub open spec fn has_line_below(self) -> bool {
        self.cursor < self.input.len() && self.line_end() < self.input.len()
    }

    /// There is a line above the cursor's.
    pub open spec fn has_line_above(self) -> bool {
        self.line_start() > 0
    }

    /// The column of the cursor.
    pub open spec fn column(self) -> int {
        self.caret() - self.line_start()
    }

    /// The place below the cursor: the same column, or the end of a shorter
    /// line.
    pub open spec fn place_below(self) -> int {
        let start = self.line_end() + 1;
        let end = next_char(self.input, '\n', start);
        start + lesser(self.column(), end - start)
    }

    /// The place above the cursor: the same column, or the end of a shorter
    /// line.
    pub open spec fn place_above(self) -> int {
        let end = self.line_start() - 1;
        let start = after_previous_char(self.input, '\n', end);
        start + lesser(self.column(), end - start)
    }

    /// The cursor moves down a line, or on to the next recalled input.
    pub open spec fn moved_down(self) -> ComposerModel {
        if self.has_line_below() {
            self.at(self.place_below())
        } else {
            self.recalled_down()
        }
    }

    /// The cursor moves up a line, or back to the previous recalled input.
    pub open spec fn moved_up(self) -> ComposerModel {
        if self.has_line_above() {
            self.at(self.place_above())
        } else {
            self.recalled_up()
        }
    }
}

/// Deleting a line takes away one line and the break that set it off: what
/// stands before and behind it stays.
pub proof fn line_deletion_keeps_other_lines(m: ComposerModel)
    requires
        m.cursor >= 0,
    ensures
        m.line_deleted().input == m.input.take(m.line_cut_start()) + m.input.skip(
            m.line_cut_end(),
        ),
        forall|i: int|
            m.line_start() <= i < m.line_end() ==> m.input[i] != '\n',
{
    lemma_line_bounds(m);
    assert(m.line_deleted().input =~= m.input.take(m.line_cut_start()) + m.input.skip(
        m.line_cut_end(),
    ));
    crate::text::lemma_next_char(m.input, '\n', m.caret());
    lemma_no_break_before(m.input, m.caret());
}

proof fn lemma_no_break_before(s: Seq<char>, i: int)
    requires
        0 <= i <= s.len(),
    ensures
        forall|j: int| after_previous_char(s, '\n', i) <= j < i ==> s[j] != '\n',
    decreases i,
{
    if i > 0 && s[i - 1] != '\n' {
        lemma_no_break_before(s, i - 1);
    }
}

/// Where the line above is long enough for the cursor's column, moving up and
/// down again returns to the same place.
pub proof fn down_undoes_up_a_line(m: ComposerModel)
    requires
        0 <= m.cursor <= m.input.len(),
        m.has_line_above(),
        m.column() <= m.line_start() - 1 - after_previous_char(m.input, '\n', m.line_start() - 1),
    ensures
        m.moved_up().moved_down() == m,
{
    lemma_line_bounds(m);
    let end = m.line_start() - 1;
    lemma_after_previous_char(m.input, '\n', end);
    lemma_no_break_before(m.input, end);
    lemma_no_break_before(m.input, m.caret());
    let up = m.moved_up();
    lemma_line_bounds(up);
    crate::text::lemma_next_char(m.input, '\n', up.caret());
    assert(up.line_end() == end);
    lemma_line_start_within(m.input, after_previous_char(m.input, '\n', end), up.cursor);
    crate::text::lemma_next_char(m.input, '\n', m.line_start());
    assert(next_char(m.input, '\n', m.line_start()) >= m.cursor);
}

/// Where the line below is long enough for the cursor's column, moving down and
/// up again returns to the same place.
pub proof fn up_undoes_down_a_line(m: ComposerModel)
    requires
        0 <= m.cursor <= m.input.len(),
        m.has_line_below(),
        m.column() <= next_char(m.input, '\n', m.line_end() + 1) - (m.line_end() + 1),
    ensures
        m.moved_down().moved_up() == m,
{
    lemma_line_bounds(m);
    let end = m.line_end();
    crate::text::lemma_next_char(m.input, '\n', m.caret());
    crate::text::lemma_next_char(m.input, '\n', end + 1);
    lemma_no_break_before(m.input, m.caret());
    let down = m.moved_down();
    lemma_line_bounds(down);
    lemma_line_start_within(m.input, end + 1, down.cursor);
    lemma_after_previous_char(m.input, '\n', m.caret());
    lemma_line_start_within(m.input, m.line_start(), end);
}

/// Within a line, its beginning is the beginning found from any place in it.
proof fn lemma_line_start_within(s: Seq<char>, start: int, i: int)
    requires
        0 <= start <= i <= s.len(),
        start > 0 ==> s[start - 1] == '\n',
        forall|j: int| start <= j < i ==> s[j] != '\n',
    ensures
        after_previous_char(s, '\n', i) == start,
    decreases i,
{
    if i > start {
        lemma_line_start_within(s, start, i - 1);
    }
}

impl ComposerState {
    /// Deletes the character under the cursor. Returns whether there was one.
    pub fn delete_under_cursor(&mut self) -> (res: bool)
        ensures
            final(self)@ == old(self)@.under_cursor_deleted(),
            res == (old(self)@.cursor < old(self)@.input.len()),
    {
        let total = char_count(self.input.as_str());
        if self.cursor_position >= total {
            return false;
        }
        let pos: usize = self.cursor_position;
        let rest: usize = total - 1;
        let cursor: usize = if pos > 0 && pos >= rest {
            rest - 1
        } else {
            pos
        };
        self.cut(pos, pos + 1, cursor);
        true
    }

    /// Deletes the line of the cursor.
    pub fn delete_line(&mut self)
        ensures
            final(self)@ == old(self)@.line_deleted(),
    {
        proof { lemma_line_bounds(self@); }
        let c = self.clamped_cursor();
        let chars = to_chars(self.input.as_str());
        let start = find_after_previous_char(&chars, '\n', c);
        let end = find_next_char(&chars, '\n', c);
        if end < chars.len() {
            self.cut(start, end + 1, start);
        } else if start > 0 {
            self.cut(start - 1, end, start - 1);
        } else {
            self.cut(start, end, start);
        }
    }

    /// Leaves the insert and visual modes.
    pub fn enter_normal(&mut self)
        ensures
            final(self)@ == old(self)@.in_normal_mode(),
    {
        self.vim_mode = VimMode::Normal;
        self.vim_pending_d = false;
        let total = char_count(self.input.as_str());
        if self.cursor_position > 0 && self.cursor_position >= total {
            self.cursor_position = total.saturating_sub(1);
        }
    }

    /// Moves the cursor down a line where there is one. Returns whether it did.
    pub fn move_down_line(&mut self) -> (res: bool)
        ensures
            res == old(self)@.has_line_below(),
            res ==> final(self)@ == old(self)@.at(old(self)@.place_below()),
            !res ==> *final(self) == *old(self),
    {
        proof { lemma_line_bounds(self@); }
        let chars = to_chars(self.input.as_str());
        if self.cursor_position >= chars.len() {
            return false;
        }
        let c: usize = self.cursor_position;
        let end = find_next_char(&chars, '\n', c);
        if end >= chars.len() {
            return false;
        }
        let start = find_after_previous_char(&chars, '\n', c);
        let column: usize = c - start;
        let below: usize = end + 1;
        let below_end = find_next_char(&chars, '\n', below);
        let length: usize = below_end - below;
        self.cursor_position = if column < length {
            below + column
        } else {
            below_end
        };
        true
    }

    /// Moves the cursor up a line where there is one. Returns whether it did.
    pub fn move_up_line(&mut self) -> (res: bool)
        ensures
            res == old(self)@.has_line_above(),
            res ==> final(self)@ == old(self)@.at(old(self)@.place_above()),
            !res ==> *final(self) == *old(self),
    {
        let c = self.clamped_cursor();
        let chars = to_chars(self.input.as_str());
        let start = find_after_previous_char(&chars, '\n', c);
        if start == 0 {
            return false;
        }
        let column: usize = c - start;
        let above_end: usize = start - 1;
        let above = find_after_previous_char(&chars, '\n', above_end);
        let length: usize = above_end - above;
        self.cursor_position = if column < length {
            above + column
        } else {
            above_end
        };
        true
    }

    /// Moves the cursor down a line, or on to the next recalled input. Returns
    /// whether it moved or the draft came back.
    pub fn move_down(&mut self) -> (res: bool)
        ensures
            final(self)@ == old(self)@.moved_down(),
            res == (old(self)@.has_line_below() || old(self)@.restores_draft()),
    {
        if self.move_down_line() {
            true
        } else {
            self.history_down()
        }
    }

    /// Moves the cursor up a line, or back to the previous recalled input.
    /// Returns whether it moved.
    pub fn move_up(&mut self) -> (res: bool)
        requires
            old(self)@.has_line_above() || old(self)@.can_recall(),
        ensures
            final(self)@ == old(self)@.moved_up(),
            res == old(self)@.has_line_above(),
    {
        if self.move_up_line() {
            true
        } else {
            self.history_up();
            false
        }
    }
}

} // verus!
