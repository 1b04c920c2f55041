//! The composer: the text being typed, its cursor, and what can be recalled
//! into it.
//!
//! Positions are character positions. The cursor may stand past the end of the
//! text; it is then taken to stand at the end.

use std::collections::VecDeque;

use vstd::prelude::*;

use crate::text::{
    after_previous_char, char_count, char_is_whitespace, find_after_previous_char, find_next_char,
    find_run_end, find_run_start, from_chars, is_whitespace, next_char, run_end, run_start, splice,
    spliced, texts, to_chars,
};
use crate::tui::paste_burst::{PasteBurst, PasteBurstModel};

verus! {

/// How many discarded drafts are kept for recovery.
pub const MAX_DRAFT_HISTORY: usize = 50;

/// Longer inputs are not sent as they are but stored in a file.
pub const MAX_SUBMITTED_INPUT_CHARS: usize = 16_000;

// ---------------------------------------------------------------------------
// State
// ---------------------------------------------------------------------------

/// Editing modes of the composer when it works like vim.
#[derive(Debug, Clone, Copy, PartialEq, Eq, Structural)]
pub enum VimMode {
    Normal,
    Insert,
    Visual,
}

/// The draft set aside while earlier inputs are recalled.
#[derive(Debug)]
pub struct InputHistoryDraft {
    pub input: String,
    pub cursor: usize,
}

/// The mathematical form of an [`InputHistoryDraft`].
#[verifier::ext_equal]
pub struct DraftModel {
    pub input: Seq<char>,
    pub cursor: int,
}

impl View for InputHistoryDraft {
    type V = DraftModel;

    open spec fn view(&self) -> DraftModel {
        DraftModel { input: self.input@, cursor: self.cursor as int }
    }
}

/// A search through earlier inputs, and the draft it started from.
#[derive(Debug)]
pub struct ComposerHistorySearch {
    pub pre_search_input: String,
    pub pre_search_cursor: usize,
    pub query: String,
    pub selected: usize,
}

/// The mathematical form of a [`ComposerHistorySearch`].
#[verifier::ext_equal]
pub struct SearchModel {
    pub pre_search_input: Seq<char>,
    pub pre_search_cursor: int,
    pub query: Seq<char>,
    pub selected: int,
}

impl View for ComposerHistorySearch {
    type V = SearchModel;

    open spec fn view(&self) -> SearchModel {
        SearchModel {
            pre_search_input: self.pre_search_input@,
            pre_search_cursor: self.pre_search_cursor as int,
            query: self.query@,
            selected: self.selected as int,
        }
    }
}

impl ComposerHistorySearch {
    /// A search that starts from this draft.
    pub fn new(pre_search_input: String, pre_search_cursor: usize) -> (res: Self)
        ensures
            res@ == (SearchModel {
                pre_search_input: pre_search_input@,
                pre_search_cursor: pre_search_cursor as int,
                query: Seq::empty(),
                selected: 0,
            }),
    {
        let res = ComposerHistorySearch {
            pre_search_input,
            pre_search_cursor,
            query: String::new(),
            selected: 0,
        };
        proof { assert(res.query@ =~= Seq::empty()); }
        res
    }
}

/// The text being typed and what can be recalled into it.
#[derive(Debug)]
pub struct ComposerState {
    pub input: String,
    pub cursor_position: usize,
    pub kill_buffer: String,
    pub paste_burst: PasteBurst,
    pub input_history: Vec<String>,
    pub draft_history: VecDeque<String>,
    pub history_index: Option<usize>,
    pub history_navigation_draft: Option<InputHistoryDraft>,
    pub composer_history_search: Option<ComposerHistorySearch>,
    pub selected_attachment_index: Option<usize>,
    pub slash_menu_selected: usize,
    pub slash_menu_hidden: bool,
    pub mention_menu_selected: usize,
    pub mention_menu_hidden: bool,
    pub vim_enabled: bool,
    pub vim_mode: VimMode,
    pub vim_pending_d: bool,
}

/// The mathematical form of a [`ComposerState`].
#[verifier::ext_equal]
pub struct ComposerModel {
    pub input: Seq<char>,
    pub cursor: int,
    pub kill_buffer: Seq<char>,
    pub paste_burst: PasteBurstModel,
    pub input_history: Seq<Seq<char>>,
    pub draft_history: Seq<Seq<char>>,
    pub history_index: Option<usize>,
    pub navigation_draft: Option<DraftModel>,
    pub search: Option<SearchModel>,
    pub selected_attachment: Option<usize>,
    pub slash_menu_selected: usize,
    pub slash_menu_hidden: bool,
    pub mention_menu_selected: usize,
    pub mention_menu_hidden: bool,
    pub vim_enabled: bool,
    pub vim_mode: VimMode,
    pub vim_pending_d: bool,
}

impl View for ComposerState {
    type V = ComposerModel;

    open spec fn view(&self) -> ComposerModel {
        ComposerModel {
            input: self.input@,
            cursor: self.cursor_position as int,
            kill_buffer: self.kill_buffer@,
            paste_burst: self.paste_burst@,
            input_history: texts(self.input_history@),
            draft_history: texts(self.draft_history@),
            history_index: self.history_index,
            navigation_draft: match self.history_navigation_draft {
                Some(d) => Some(d@),
                None => None,
            },
            search: match self.composer_history_search {
                Some(s) => Some(s@),
                None => None,
            },
            selected_attachment: self.selected_attachment_index,
            slash_menu_selected: self.slash_menu_selected,
            slash_menu_hidden: self.slash_menu_hidden,
            mention_menu_selected: self.mention_menu_selected,
            mention_menu_hidden: self.mention_menu_hidden,
            vim_enabled: self.vim_enabled,
            vim_mode: self.vim_mode,
            vim_pending_d: self.vim_pending_d,
        }
    }
}

// ---------------------------------------------------------------------------
// What editing does
// ---------------------------------------------------------------------------

/// The lesser of two positions.
pub open spec fn lesser(a: int, b: int) -> int {
    if a <= b {
        a
    } else {
        b
    }
}

impl ComposerModel {
    /// Where the cursor stands in the text.
    pub open spec fn caret(self) -> int {
        lesser(self.cursor, self.input.len() as int)
    }

    /// The menus are open again and the first mention is selected.
    pub open spec fn with_menus(self) -> ComposerModel {
        ComposerModel {
            slash_menu_hidden: false,
            mention_menu_hidden: false,
            mention_menu_selected: 0,
            ..self
        }
    }

    /// Earlier inputs are no longer being recalled.
    pub open spec fn without_navigation(self) -> ComposerModel {
        ComposerModel { history_index: None, navigation_draft: None, ..self }
    }

    /// No attachment is selected.
    pub open spec fn without_selection(self) -> ComposerModel {
        ComposerModel { selected_attachment: None, ..self }
    }

    /// The characters from `from` to `to` give way to `text`, and the cursor
    /// stands at `cursor`.
    pub open spec fn edited(self, from: int, to: int, text: Seq<char>, cursor: int) -> ComposerModel {
        ComposerModel { input: spliced(self.input, from, to, text), cursor, ..self }
    }

    /// `text` is inserted at the cursor.
    pub open spec fn inserted(self, text: Seq<char>) -> ComposerModel {
        if text.len() == 0 {
            self
        } else {
            let c = self.caret();
            self.without_selection().edited(c, c, text, c + text.len()).with_menus()
        }
    }

    /// A character is typed.
    pub open spec fn typed(self, ch: char) -> ComposerModel {
        self.without_navigation().inserted(seq![ch])
    }

    /// The character before the cursor is deleted.
    pub open spec fn backspaced(self) -> ComposerModel {
        let base = self.without_navigation().without_selection();
        let target = self.cursor - 1;
        if 0 <= target < self.input.len() {
            base.edited(target, target + 1, Seq::empty(), target).with_menus()
        } else {
            base
        }
    }

    /// The character at the cursor is deleted.
    pub open spec fn deleted_forward(self) -> ComposerModel {
        let base = self.without_navigation().without_selection();
        if self.input.len() == 0 {
            base
        } else if self.cursor < self.input.len() {
            base.edited(self.cursor, self.cursor + 1, Seq::empty(), self.cursor).with_menus()
        } else {
            (ComposerModel { cursor: self.input.len() as int, ..base }).with_menus()
        }
    }

    /// The text from `from` to the cursor is deleted, where there is any.
    pub open spec fn deleted_back_to(self, from: int) -> ComposerModel {
        let base = self.without_navigation().without_selection();
        if self.cursor > 0 && from < self.caret() {
            base.edited(from, self.caret(), Seq::empty(), from).with_menus()
        } else {
            base
        }
    }

    /// Where the word before the cursor begins.
    pub open spec fn word_start_before(self) -> int {
        run_start(self.input, run_start(self.input, self.caret(), true), false)
    }

    /// Where the line of the cursor begins.
    pub open spec fn line_start(self) -> int {
        after_previous_char(self.input, '\n', self.caret())
    }

    /// Where the line of the cursor ends.
    pub open spec fn line_end(self) -> int {
        next_char(self.input, '\n', self.caret())
    }

    /// The word before the cursor is deleted, with the blanks behind it.
    pub open spec fn word_deleted_backward(self) -> ComposerModel {
        self.deleted_back_to(self.word_start_before())
    }

    /// The line up to the cursor is deleted.
    pub open spec fn line_start_deleted(self) -> ComposerModel {
        self.deleted_back_to(self.line_start())
    }

    /// The word behind the cursor is deleted, with the blanks before it.
    pub open spec fn word_deleted_forward(self) -> ComposerModel {
        let base = self.without_navigation().without_selection();
        let end = run_end(self.input, run_end(self.input, self.caret(), true), false);
        if self.caret() < self.input.len() {
            base.edited(self.caret(), end, Seq::empty(), self.cursor).with_menus()
        } else {
            base
        }
    }

    /// Where a kill from the cursor ends: at the end of the line, or behind the
    /// line break on which the cursor stands.
    pub open spec fn kill_end(self) -> int {
        let end = self.line_end();
        if self.caret() == end && end < self.input.len() {
            end + 1
        } else {
            end
        }
    }

    /// A kill from the cursor finds something.
    pub open spec fn can_kill(self) -> bool {
        self.caret() < self.input.len()
    }

    /// The rest of the line is moved into the kill buffer.
    pub open spec fn killed(self) -> ComposerModel {
        let base = self.without_navigation();
        if self.can_kill() {
            let c = self.caret();
            (ComposerModel {
                kill_buffer: self.input.subrange(c, self.kill_end()),
                ..base
            }).edited(c, self.kill_end(), Seq::empty(), c).with_menus()
        } else {
            base
        }
    }

    /// The kill buffer is inserted at the cursor.
    pub open spec fn yanked(self) -> ComposerModel {
        if self.kill_buffer.len() == 0 {
            self
        } else {
            let c = self.caret();
            self.without_navigation().edited(
                c,
                c,
                self.kill_buffer,
                c + self.kill_buffer.len(),
            ).with_menus()
        }
    }

    /// The cursor stands at `cursor`.
    pub open spec fn at(self, cursor: int) -> ComposerModel {
        ComposerModel { cursor, ..self }
    }

    /// Where the next word begins.
    pub open spec fn next_word(self) -> int {
        if self.cursor >= self.input.len() {
            self.cursor
        } else {
            run_end(self.input, run_end(self.input, self.cursor, false), true)
        }
    }

    /// Where the word before the cursor begins, the cursor's own place left out.
    pub open spec fn previous_word(self) -> int {
        if self.cursor <= 0 {
            self.cursor
        } else {
            run_start(self.input, last_nonblank(self.input, self.cursor - 1), false)
        }
    }

    /// The input is emptied.
    pub open spec fn cleared(self) -> ComposerModel {
        ComposerModel {
            input: Seq::empty(),
            cursor: 0,
            selected_attachment: None,
            slash_menu_selected: 0,
            slash_menu_hidden: false,
            paste_burst: PasteBurstModel::idle(),
            ..self.without_navigation()
        }
    }
}

/// The last position at or before `i` that is not blank, or zero. Positions
/// past the end are blank.
pub open spec fn last_nonblank(s: Seq<char>, i: int) -> int
    decreases i,
{
    if i <= 0 {
        0
    } else if i >= s.len() || is_whitespace(s[i]) {
        last_nonblank(s, i - 1)
    } else {
        i
    }
}

// ---------------------------------------------------------------------------
// Laws of editing
// ---------------------------------------------------------------------------

/// Yanking right behind a kill restores the text, puts the cursor behind it,
/// and keeps the kill buffer.
pub proof fn yank_undoes_kill(m: ComposerModel)
    requires
        m.cursor >= 0,
        m.can_kill(),
    ensures
        m.killed().yanked().input == m.input,
        m.killed().yanked().cursor == m.kill_end(),
        m.killed().yanked().kill_buffer == m.killed().kill_buffer,
{
    lemma_line_bounds(m);
    let c = m.caret();
    let k = m.killed();
    assert(k.kill_buffer.len() > 0);
    assert(k.input.take(c) =~= m.input.take(c));
    assert(k.input.skip(c) =~= m.input.skip(m.kill_end()));
    assert(k.yanked().input =~= m.input);
}

/// A kill makes progress wherever there is text behind the cursor.
pub proof fn kill_makes_progress(m: ComposerModel)
    requires
        m.cursor >= 0,
        m.can_kill(),
    ensures
        m.killed().input.len() < m.input.len(),
{
    lemma_line_bounds(m);
}

/// Deleting behind a typed character restores the text and the cursor.
pub proof fn backspace_undoes_typing(m: ComposerModel, ch: char)
    requires
        0 <= m.cursor <= m.input.len(),
    ensures
        m.typed(ch).backspaced().input == m.input,
        m.typed(ch).backspaced().cursor == m.cursor,
{
    let c = m.cursor;
    let t = m.typed(ch);
    assert(t.input.take(c) =~= m.input.take(c));
    assert(t.input.skip(c + 1) =~= m.input.skip(c));
    assert(t.backspaced().input =~= m.input);
}

/// Inserting keeps what stood before and behind the cursor.
pub proof fn insertion_keeps_text(m: ComposerModel, text: Seq<char>)
    requires
        m.cursor >= 0,
    ensures
        m.inserted(text).input == m.input.take(m.caret()) + text + m.input.skip(m.caret()),
{
    if text.len() == 0 {
        assert(m.input =~= m.input.take(m.caret()) + text + m.input.skip(m.caret()));
    }
}

/// The cursor stands within the text.
pub open spec fn cursor_in_text(m: ComposerModel) -> bool {
    0 <= m.cursor <= m.input.len()
}

/// Every edit leaves the cursor within the text.
pub proof fn edits_keep_cursor_in_text(m: ComposerModel, text: Seq<char>, ch: char)
    requires
        cursor_in_text(m),
    ensures
        cursor_in_text(m.inserted(text)),
        cursor_in_text(m.typed(ch)),
        cursor_in_text(m.backspaced()),
        cursor_in_text(m.deleted_forward()),
        cursor_in_text(m.word_deleted_backward()),
        cursor_in_text(m.line_start_deleted()),
        cursor_in_text(m.word_deleted_forward()),
        cursor_in_text(m.killed()),
        cursor_in_text(m.yanked()),
        cursor_in_text(m.cleared()),
        cursor_in_text(m.at(m.next_word())),
        cursor_in_text(m.at(m.previous_word())),
{
    lemma_line_bounds(m);
    lemma_run_start_bounds(m.input, m.caret(), true);
    lemma_run_start_bounds(m.input, run_start(m.input, m.caret(), true), false);
    lemma_run_end_bounds(m.input, m.caret(), true);
    lemma_run_end_bounds(m.input, run_end(m.input, m.caret(), true), false);
    lemma_run_end_bounds(m.input, m.caret(), false);
    lemma_run_end_bounds(m.input, run_end(m.input, m.caret(), false), true);
    lemma_last_nonblank(m.input, m.cursor - 1);
    lemma_run_start_bounds(m.input, last_nonblank(m.input, m.cursor - 1), false);
}

proof fn lemma_run_start_bounds(s: Seq<char>, i: int, ws: bool)
    requires
        0 <= i <= s.len(),
    ensures
        0 <= run_start(s, i, ws) <= i,
    decreases i,
{
    if i > 0 && is_whitespace(s[i - 1]) == ws {
        lemma_run_start_bounds(s, i - 1, ws);
    }
}

proof fn lemma_run_end_bounds(s: Seq<char>, i: int, ws: bool)
    requires
        0 <= i <= s.len(),
    ensures
        i <= run_end(s, i, ws) <= s.len(),
    decreases s.len() - i,
{
    if i < s.len() && is_whitespace(s[i]) == ws {
        lemma_run_end_bounds(s, i + 1, ws);
    }
}

proof fn lemma_last_nonblank(s: Seq<char>, i: int)
    ensures
        0 <= last_nonblank(s, i),
        i >= 0 ==> last_nonblank(s, i) <= i,
        last_nonblank(s, i) == 0 || last_nonblank(s, i) < s.len(),
    decreases i,
{
    if i > 0 && (i >= s.len() || is_whitespace(s[i])) {
        lemma_last_nonblank(s, i - 1);
    }
}

pub(crate) proof fn lemma_after_previous_char(s: Seq<char>, c: char, i: int)
    requires
        0 <= i <= s.len(),
    ensures
        0 <= after_previous_char(s, c, i) <= i,
        after_previous_char(s, c, i) > 0 ==> s[after_previous_char(s, c, i) - 1] == c,
    decreases i,
{
    if i > 0 && s[i - 1] != c {
        lemma_after_previous_char(s, c, i - 1);
    }
}

pub(crate) proof fn lemma_line_bounds(m: ComposerModel)
    requires
        m.cursor >= 0,
    ensures
        0 <= m.line_start() <= m.caret() <= m.line_end() <= m.input.len(),
        m.line_start() > 0 ==> m.input[m.line_start() - 1] == '\n',
        m.line_end() < m.input.len() ==> m.input[m.line_end()] == '\n',
{
    lemma_after_previous_char(m.input, '\n', m.caret());
    crate::text::lemma_next_char(m.input, '\n', m.caret());
}

// ---------------------------------------------------------------------------
// Editing
// ---------------------------------------------------------------------------

impl ComposerState {
    pub(crate) fn clamped_cursor(&self) -> (res: usize)
        ensures
            res == self@.caret(),
            res <= self.input@.len(),
    {
        let total = char_count(self.input.as_str());
        if self.cursor_position < total {
            self.cursor_position
        } else {
            total
        }
    }

    pub(crate) fn show_menus(&mut self)
        ensures
            final(self)@ == old(self)@.with_menus(),
    {
        self.slash_menu_hidden = false;
        self.mention_menu_hidden = false;
        self.mention_menu_selected = 0;
    }

    pub(crate) fn stop_navigation(&mut self)
        ensures
            final(self)@ == old(self)@.without_navigation(),
    {
        self.history_index = None;
        self.history_navigation_draft = None;
    }

    pub(crate) fn cut(&mut self, from: usize, to: usize, cursor: usize)
        requires
            from <= to <= old(self).input@.len(),
        ensures
            final(self)@ == old(self)@.edited(from as int, to as int, Seq::empty(), cursor as int),
    {
        self.input = splice(self.input.as_str(), from, to, "");
        self.cursor_position = cursor;
        proof {
            reveal_strlit("");
            assert(""@ =~= Seq::<char>::empty());
        }
    }

    pub(crate) fn put(&mut self, text: &str)
        ensures
            final(self)@ == old(self)@.edited(
                old(self)@.caret(),
                old(self)@.caret(),
                text@,
                old(self)@.caret() + text@.len(),
            ),
    {
        let total = char_count(self.input.as_str());
        let c = self.clamped_cursor();
        self.input = splice(self.input.as_str(), c, c, text);
        let rest: usize = total - c;
        self.cursor_position = char_count(self.input.as_str()) - rest;
    }

    /// Inserts a text at the cursor. Returns whether there was any.
    pub fn insert_str(&mut self, text: &str) -> (res: bool)
        ensures
            final(self)@ == old(self)@.inserted(text@),
            res == (text@.len() > 0),
    {
        if text.is_empty() {
            return false;
        }
        self.selected_attachment_index = None;
        self.put(text);
        self.show_menus();
        true
    }

    /// Types a character.
    pub fn insert_char(&mut self, c: char)
        ensures
            final(self)@ == old(self)@.typed(c),
    {
        self.stop_navigation();
        let mut text = String::new();
        text.push(c);
        proof { assert(text@ =~= seq![c]); }
        self.insert_str(text.as_str());
    }

    /// Deletes the character before the cursor. Returns whether there was one.
    pub fn delete_char(&mut self) -> (res: bool)
        ensures
            final(self)@ == old(self)@.backspaced(),
            res == (0 < old(self)@.cursor <= old(self)@.input.len()),
    {
        self.stop_navigation();
        self.selected_attachment_index = None;
        if self.cursor_position == 0 {
            return false;
        }
        let target: usize = self.cursor_position - 1;
        if target >= char_count(self.input.as_str()) {
            return false;
        }
        self.cut(target, target + 1, target);
        self.show_menus();
        true
    }

    /// Deletes the character at the cursor. Returns whether the input holds any
    /// text.
    pub fn delete_char_forward(&mut self) -> (res: bool)
        ensures
            final(self)@ == old(self)@.deleted_forward(),
            res == (old(self)@.input.len() > 0),
    {
        self.stop_navigation();
        self.selected_attachment_index = None;
        let total = char_count(self.input.as_str());
        if total == 0 {
            return false;
        }
        let target: usize = self.cursor_position;
        if target < total {
            self.cut(target, target + 1, target);
        } else {
            self.cursor_position = total;
        }
        self.show_menus();
        true
    }

    fn delete_back_to(&mut self, from: usize) -> (res: bool)
        requires
            from <= old(self).input@.len(),
        ensures
            final(self)@ == old(self)@.deleted_back_to(from as int),
            res == (old(self)@.cursor > 0 && from < old(self)@.caret()),
    {
        self.stop_navigation();
        self.selected_attachment_index = None;
        let c = self.clamped_cursor();
        if self.cursor_position == 0 || from >= c {
            return false;
        }
        self.cut(from, c, from);
        self.show_menus();
        true
    }

    /// Deletes the word before the cursor. Returns whether anything was deleted.
    pub fn delete_word_backward(&mut self) -> (res: bool)
        ensures
            final(self)@ == old(self)@.word_deleted_backward(),
            res == (old(self)@.cursor > 0 && old(self)@.word_start_before() < old(self)@.caret()),
    {
        let c = self.clamped_cursor();
        let chars = to_chars(self.input.as_str());
        let blank = find_run_start(&chars, c, true);
        let start = find_run_start(&chars, blank, false);
        self.delete_back_to(start)
    }

    /// Deletes the line up to the cursor. Returns whether anything was deleted.
    pub fn delete_to_start_of_line(&mut self) -> (res: bool)
        ensures
            final(self)@ == old(self)@.line_start_deleted(),
            res == (old(self)@.cursor > 0 && old(self)@.line_start() < old(self)@.caret()),
    {
        let c = self.clamped_cursor();
        let chars = to_chars(self.input.as_str());
        let start = find_after_previous_char(&chars, '\n', c);
        self.delete_back_to(start)
    }

    /// Deletes the word behind the cursor. Returns whether there was any text.
    pub fn delete_word_forward(&mut self) -> (res: bool)
        ensures
            final(self)@ == old(self)@.word_deleted_forward(),
            res == (old(self)@.caret() < old(self)@.input.len()),
    {
        self.stop_navigation();
        self.selected_attachment_index = None;
        let c = self.clamped_cursor();
        let chars = to_chars(self.input.as_str());
        if c >= chars.len() {
            return false;
        }
        let word = find_run_end(&chars, c, true);
        let end = find_run_end(&chars, word, false);
        let cursor: usize = self.cursor_position;
        self.cut(c, end, cursor);
        self.show_menus();
        true
    }

    /// Moves the rest of the line into the kill buffer. Returns whether there
    /// was any.
    pub fn kill_to_end_of_line(&mut self) -> (res: bool)
        ensures
            final(self)@ == old(self)@.killed(),
            res == old(self)@.can_kill(),
    {
        proof { lemma_line_bounds(self@); }
        self.stop_navigation();
        let c = self.clamped_cursor();
        let chars = to_chars(self.input.as_str());
        let eol = find_next_char(&chars, '\n', c);
        let end: usize = if c == eol {
            if eol < chars.len() {
                eol + 1
            } else {
                return false;
            }
        } else {
            eol
        };
        self.kill_buffer = from_chars(&chars, c, end);
        self.cut(c, end, c);
        self.show_menus();
        true
    }

    /// Inserts the kill buffer at the cursor. Returns whether it held anything.
    pub fn yank(&mut self) -> (res: bool)
        ensures
            final(self)@ == old(self)@.yanked(),
            res == (old(self)@.kill_buffer.len() > 0),
    {
        if self.kill_buffer.as_str().is_empty() {
            return false;
        }
        self.stop_navigation();
        let text = self.kill_buffer.clone();
        self.put(text.as_str());
        self.show_menus();
        true
    }

    /// Empties the input.
    pub fn clear_input(&mut self)
        ensures
            final(self)@ == old(self)@.cleared(),
    {
        self.stop_navigation();
        self.input = String::new();
        self.cursor_position = 0;
        self.selected_attachment_index = None;
        self.slash_menu_selected = 0;
        self.slash_menu_hidden = false;
        self.paste_burst.clear_after_explicit_paste();
        proof { assert(self.input@ =~= Seq::empty()); }
    }

    // -----------------------------------------------------------------------
    // Moving
    // -----------------------------------------------------------------------

    /// Moves to the beginning of the next word. Returns whether the cursor
    /// stood before the end.
    pub fn move_cursor_word_forward(&mut self) -> (res: bool)
        ensures
            final(self)@ == old(self)@.at(old(self)@.next_word()),
            res == (old(self)@.cursor < old(self)@.input.len()),
    {
        let chars = to_chars(self.input.as_str());
        if self.cursor_position >= chars.len() {
            return false;
        }
        let word = find_run_end(&chars, self.cursor_position, false);
        self.cursor_position = find_run_end(&chars, word, true);
        true
    }

    /// Moves to the beginning of the word before. Returns whether the cursor
    /// stood behind the beginning.
    pub fn move_cursor_word_backward(&mut self) -> (res: bool)
        ensures
            final(self)@ == old(self)@.at(old(self)@.previous_word()),
            res == (old(self)@.cursor > 0),
    {
        if self.cursor_position == 0 {
            return false;
        }
        let chars = to_chars(self.input.as_str());
        let ghost start = self.cursor_position - 1;
        let mut pos: usize = self.cursor_position - 1;
        while pos > 0 && (pos >= chars.len() || char_is_whitespace(chars[pos]))
            invariant
                pos <= start,
                chars@ == self.input@,
                last_nonblank(self.input@, start as int) == last_nonblank(self.input@, pos as int),
            decreases pos,
        {
            pos -= 1;
        }
        proof {
            lemma_last_nonblank(self.input@, start as int);
            assert(pos == last_nonblank(self.input@, start as int));
        }
        self.cursor_position = find_run_start(&chars, pos, false);
        true
    }

    /// Moves one character to the right, within the text. Returns whether there
    /// was one.
    pub fn step_right(&mut self) -> (res: bool)
        ensures
            res == (old(self)@.cursor < old(self)@.input.len()),
            final(self)@ == old(self)@.at(
                if res {
                    old(self)@.cursor + 1
                } else {
                    old(self)@.cursor
                },
            ),
    {
        if self.cursor_position < char_count(self.input.as_str()) {
            self.cursor_position = self.cursor_position + 1;
            true
        } else {
            false
        }
    }

    /// Moves to the beginning of the line.
    pub fn move_line_start(&mut self)
        ensures
            final(self)@ == old(self)@.at(old(self)@.line_start()),
    {
        let c = self.clamped_cursor();
        let chars = to_chars(self.input.as_str());
        self.cursor_position = find_after_previous_char(&chars, '\n', c);
    }

    /// Moves to the end of the line.
    pub fn move_line_end(&mut self)
        ensures
            final(self)@ == old(self)@.at(old(self)@.line_end()),
    {
        let c = self.clamped_cursor();
        let chars = to_chars(self.input.as_str());
        self.cursor_position = find_next_char(&chars, '\n', c);
    }
}

} // verus!
