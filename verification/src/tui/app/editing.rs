//! Editing the composer's text and moving in it.

use vstd::prelude::*;

use crate::text::{byte_index_at_char, byte_len, char_count, first_chars};
use crate::tui::app::App;
use crate::tui::composer::{ComposerModel, ComposerState, VimMode};
use crate::tui::recall::remembered;

verus! {

impl App {
    /// The application with this composer. `redraw` asks for the screen to be
    /// drawn again.
    pub open spec fn with_composer(self, composer: ComposerState, redraw: bool) -> App {
        App { composer, needs_redraw: self.needs_redraw || redraw, ..self }
    }

    pub(crate) fn redraw_if(&mut self, on: bool)
        ensures
            *final(self) == (App { needs_redraw: old(self).needs_redraw || on, ..*old(self) }),
    {
        self.needs_redraw = self.needs_redraw || on;
    }

    /// The byte offset of the cursor.
    pub fn cursor_byte_index(&self) -> (res: usize)
        ensures
            res == byte_len(first_chars(self.composer@.input, self.composer@.cursor)),
    {
        byte_index_at_char(self.composer.input.as_str(), self.composer.cursor_position)
    }

    /// Inserts a text at the cursor.
    pub fn insert_str(&mut self, text: &str)
        ensures
            final(self).composer@ == old(self).composer@.inserted(text@),
            *final(self) == old(self).with_composer(final(self).composer, text@.len() > 0),
    {
        let changed = self.composer.insert_str(text);
        self.redraw_if(changed);
    }

    /// Types a character.
    pub fn insert_char(&mut self, c: char)
        ensures
            final(self).composer@ == old(self).composer@.typed(c),
            *final(self) == old(self).with_composer(final(self).composer, true),
    {
        self.composer.insert_char(c);
        self.needs_redraw = true;
    }

    /// Deletes the character before the cursor.
    pub fn delete_char(&mut self)
        ensures
            final(self).composer@ == old(self).composer@.backspaced(),
            *final(self) == old(self).with_composer(
                final(self).composer,
                0 < old(self).composer@.cursor <= old(self).composer@.input.len(),
            ),
    {
        let changed = self.composer.delete_char();
        self.redraw_if(changed);
    }

    /// Deletes the character at the cursor.
    pub fn delete_char_forward(&mut self)
        ensures
            final(self).composer@ == old(self).composer@.deleted_forward(),
            *final(self) == old(self).with_composer(
                final(self).composer,
                old(self).composer@.input.len() > 0,
            ),
    {
        let changed = self.composer.delete_char_forward();
        self.redraw_if(changed);
    }

    /// Deletes the word before the cursor.
    pub fn delete_word_backward(&mut self)
        ensures
            final(self).composer@ == old(self).composer@.word_deleted_backward(),
            *final(self) == old(self).with_composer(
                final(self).composer,
                old(self).composer@.cursor > 0
                    && old(self).composer@.word_start_before() < old(self).composer@.caret(),
            ),
    {
        let changed = self.composer.delete_word_backward();
        self.redraw_if(changed);
    }

    /// Deletes from the cursor to the start of the line.
    pub fn delete_to_start_of_line(&mut self)
        ensures
            final(self).composer@ == old(self).composer@.line_start_deleted(),
            *final(self) == old(self).with_composer(
                final(self).composer,
                old(self).composer@.cursor > 0
                    && old(self).composer@.line_start() < old(self).composer@.caret(),
            ),
    {
        let changed = self.composer.delete_to_start_of_line();
        self.redraw_if(changed);
    }

    /// Deletes the word behind the cursor.
    pub fn delete_word_forward(&mut self)
        ensures
            final(self).composer@ == old(self).composer@.word_deleted_forward(),
            *final(self) == old(self).with_composer(
                final(self).composer,
                old(self).composer@.caret() < old(self).composer@.input.len(),
            ),
    {
        let changed = self.composer.delete_word_forward();
        self.redraw_if(changed);
    }

    /// Cuts from the cursor to the end of the line into the kill buffer. At the
    /// end of a line its line break is cut, so that repeated cuts go on. Returns
    /// whether anything was cut.
    pub fn kill_to_end_of_line(&mut self) -> (res: bool)
        ensures
            final(self).composer@ == old(self).composer@.killed(),
            *final(self) == old(self).with_composer(
                final(self).composer,
                old(self).composer@.can_kill(),
            ),
            res == (old(self).composer@.can_kill()),
    {
        let changed = self.composer.kill_to_end_of_line();
        self.redraw_if(changed);
        changed
    }

    /// Inserts the kill buffer at the cursor. The buffer is kept. Returns whether
    /// it held anything.
    pub fn yank(&mut self) -> (res: bool)
        ensures
            final(self).composer@ == old(self).composer@.yanked(),
            *final(self) == old(self).with_composer(
                final(self).composer,
                old(self).composer@.kill_buffer.len() > 0,
            ),
            res == (old(self).composer@.kill_buffer.len() > 0),
    {
        let changed = self.composer.yank();
        self.redraw_if(changed);
        changed
    }

    /// Moves the cursor one character to the left.
    pub fn move_cursor_left(&mut self)
        ensures
            final(self).composer@ == old(self).composer@.at(
                if old(self).composer@.cursor > 0 {
                    old(self).composer@.cursor - 1
                } else {
                    0
                },
            ),
            *final(self) == old(self).with_composer(final(self).composer, true),
    {
        self.composer.cursor_position = self.composer.cursor_position.saturating_sub(1);
        self.needs_redraw = true;
    }

    /// Moves the cursor one character to the right, within the text.
    pub fn move_cursor_right(&mut self)
        ensures
            final(self).composer@ == old(self).composer@.at(
                if old(self).composer@.cursor < old(self).composer@.input.len() {
                    old(self).composer@.cursor + 1
                } else {
                    old(self).composer@.cursor
                },
            ),
            *final(self) == old(self).with_composer(
                final(self).composer,
                old(self).composer@.cursor < old(self).composer@.input.len(),
            ),
    {
        let moved = self.composer.step_right();
        self.redraw_if(moved);
    }

    /// Moves the cursor before the text.
    pub fn move_cursor_start(&mut self)
        ensures
            final(self).composer@ == old(self).composer@.at(0),
            *final(self) == old(self).with_composer(final(self).composer, true),
    {
        self.composer.cursor_position = 0;
        self.needs_redraw = true;
    }

    /// Moves the cursor behind the text.
    pub fn move_cursor_end(&mut self)
        ensures
            final(self).composer@ == old(self).composer@.at(old(self).composer@.input.len() as int),
            *final(self) == old(self).with_composer(final(self).composer, true),
    {
        self.composer.cursor_position = char_count(self.composer.input.as_str());
        self.needs_redraw = true;
    }

    /// Moves to the first character of the next word.
    pub fn move_cursor_word_forward(&mut self)
        ensures
            final(self).composer@ == old(self).composer@.at(old(self).composer@.next_word()),
            *final(self) == old(self).with_composer(
                final(self).composer,
                old(self).composer@.cursor < old(self).composer@.input.len(),
            ),
    {
        let changed = self.composer.move_cursor_word_forward();
        self.redraw_if(changed);
    }

    /// Moves to the first character of the word before.
    pub fn move_cursor_word_backward(&mut self)
        ensures
            final(self).composer@ == old(self).composer@.at(old(self).composer@.previous_word()),
            *final(self) == old(self).with_composer(
                final(self).composer,
                old(self).composer@.cursor > 0,
            ),
    {
        let changed = self.composer.move_cursor_word_backward();
        self.redraw_if(changed);
    }

    // -----------------------------------------------------------------------
    // Vim mode
    // -----------------------------------------------------------------------

    /// Moves to the start of the line.
    pub fn vim_move_line_start(&mut self)
        ensures
            final(self).composer@ == old(self).composer@.at(old(self).composer@.line_start()),
            *final(self) == old(self).with_composer(final(self).composer, true),
    {
        self.composer.move_line_start();
        self.needs_redraw = true;
    }

    /// Moves to the end of the line.
    pub fn vim_move_line_end(&mut self)
        ensures
            final(self).composer@ == old(self).composer@.at(old(self).composer@.line_end()),
            *final(self) == old(self).with_composer(final(self).composer, true),
    {
        self.composer.move_line_end();
        self.needs_redraw = true;
    }

    /// Moves to the first character of the next word.
    pub fn vim_move_word_forward(&mut self)
        ensures
            final(self).composer@ == old(self).composer@.at(old(self).composer@.next_word()),
            *final(self) == old(self).with_composer(
                final(self).composer,
                old(self).composer@.cursor < old(self).composer@.input.len(),
            ),
    {
        let changed = self.composer.move_cursor_word_forward();
        self.redraw_if(changed);
    }

    /// Moves to the first character of the word before.
    pub fn vim_move_word_backward(&mut self)
        ensures
            final(self).composer@ == old(self).composer@.at(old(self).composer@.previous_word()),
            *final(self) == old(self).with_composer(
                final(self).composer,
                old(self).composer@.cursor > 0,
            ),
    {
        let changed = self.composer.move_cursor_word_backward();
        self.redraw_if(changed);
    }

    /// Deletes the character under the cursor.
    pub fn vim_delete_char_under_cursor(&mut self)
        ensures
            final(self).composer@ == old(self).composer@.under_cursor_deleted(),
            *final(self) == old(self).with_composer(
                final(self).composer,
                old(self).composer@.cursor < old(self).composer@.input.len(),
            ),
    {
        let changed = self.composer.delete_under_cursor();
        self.redraw_if(changed);
    }

    /// Deletes the line of the cursor.
    pub fn vim_delete_line(&mut self)
        ensures
            final(self).composer@ == old(self).composer@.line_deleted(),
            *final(self) == old(self).with_composer(final(self).composer, true),
    {
        self.composer.delete_line();
        self.needs_redraw = true;
    }

    /// Starts to insert at the cursor.
    pub fn vim_enter_insert(&mut self)
        ensures
            final(self).composer@ == (ComposerModel { vim_mode: VimMode::Insert, ..old(self).composer@ }),
            *final(self) == old(self).with_composer(final(self).composer, true),
    {
        self.composer.vim_mode = VimMode::Insert;
        self.needs_redraw = true;
    }

    /// Starts to insert behind the cursor.
    pub fn vim_enter_append(&mut self)
        ensures
            final(self).composer@ == (ComposerModel {
                vim_mode: VimMode::Insert,
                cursor: if old(self).composer@.cursor < old(self).composer@.input.len() {
                    old(self).composer@.cursor + 1
                } else {
                    old(self).composer@.cursor
                },
                ..old(self).composer@
            }),
            *final(self) == old(self).with_composer(final(self).composer, true),
    {
        self.composer.step_right();
        self.composer.vim_mode = VimMode::Insert;
        self.needs_redraw = true;
    }

    /// Opens a line below and starts to insert in it.
    pub fn vim_open_line_below(&mut self)
        ensures
            final(self).composer@ == (ComposerModel {
                vim_mode: VimMode::Insert,
                ..old(self).composer@.at(old(self).composer@.line_end()).typed('\n')
            }),
            *final(self) == old(self).with_composer(final(self).composer, true),
    {
        self.composer.move_line_end();
        self.composer.insert_char('\n');
        self.composer.vim_mode = VimMode::Insert;
        self.needs_redraw = true;
    }

    /// Leaves the insert and visual modes.
    pub fn vim_enter_normal(&mut self)
        ensures
            final(self).composer@ == old(self).composer@.in_normal_mode(),
            *final(self) == old(self).with_composer(final(self).composer, true),
    {
        self.composer.enter_normal();
        self.needs_redraw = true;
    }

    /// Whether keys are commands rather than text.
    pub fn vim_is_normal_mode(&self) -> (res: bool)
        ensures
            res == (self.composer.vim_enabled && self.composer.vim_mode == VimMode::Normal),
    {
        self.composer.vim_enabled && self.composer.vim_mode == VimMode::Normal
    }

    /// Whether text is being selected.
    pub fn vim_is_visual_mode(&self) -> (res: bool)
        ensures
            res == (self.composer.vim_enabled && self.composer.vim_mode == VimMode::Visual),
    {
        self.composer.vim_enabled && self.composer.vim_mode == VimMode::Visual
    }

    /// Moves down a line, or on to the next recalled input.
    pub fn vim_move_down(&mut self)
        ensures
            final(self).composer@ == old(self).composer@.moved_down(),
            *final(self) == old(self).with_composer(
                final(self).composer,
                old(self).composer@.has_line_below() || old(self).composer@.restores_draft(),
            ),
    {
        let changed = self.composer.move_down();
        self.redraw_if(changed);
    }

    /// Moves up a line, or back to the previous recalled input.
    pub fn vim_move_up(&mut self)
        requires
            old(self).composer@.has_line_above() || old(self).composer@.can_recall(),
        ensures
            final(self).composer@ == old(self).composer@.moved_up(),
            *final(self) == old(self).with_composer(
                final(self).composer,
                old(self).composer@.has_line_above(),
            ),
    {
        let changed = self.composer.move_up();
        self.redraw_if(changed);
    }

    // -----------------------------------------------------------------------
    // Recalling
    // -----------------------------------------------------------------------

    /// Recalls the previous input.
    pub fn history_up(&mut self)
        requires
            old(self).composer@.can_recall(),
        ensures
            final(self).composer@ == old(self).composer@.recalled_up(),
            *final(self) == old(self).with_composer(final(self).composer, false),
    {
        self.composer.history_up();
    }

    /// Recalls the next input, or the draft behind the last one.
    pub fn history_down(&mut self)
        ensures
            final(self).composer@ == old(self).composer@.recalled_down(),
            *final(self) == old(self).with_composer(
                final(self).composer,
                old(self).composer@.restores_draft(),
            ),
    {
        let changed = self.composer.history_down();
        self.redraw_if(changed);
    }

    /// Empties the input.
    pub fn clear_input(&mut self)
        ensures
            final(self).composer@ == old(self).composer@.cleared(),
            *final(self) == old(self).with_composer(final(self).composer, true),
    {
        self.composer.clear_input();
        self.needs_redraw = true;
    }

    /// Empties the input and keeps it for recovery.
    pub fn clear_input_recoverable(&mut self)
        ensures
            final(self).composer@ == (ComposerModel {
                draft_history: remembered(old(self).composer@.draft_history, old(self).composer@.input),
                ..old(self).composer@
            }).cleared(),
            *final(self) == old(self).with_composer(final(self).composer, true),
    {
        self.stash_current_input_for_recovery();
        self.clear_input();
    }

    /// Keeps the input for recovery.
    pub fn stash_current_input_for_recovery(&mut self)
        ensures
            final(self).composer@ == (ComposerModel {
                draft_history: remembered(old(self).composer@.draft_history, old(self).composer@.input),
                ..old(self).composer@
            }),
            *final(self) == old(self).with_composer(final(self).composer, false),
    {
        self.composer.stash_current_input_for_recovery();
    }
}

} // verus!
