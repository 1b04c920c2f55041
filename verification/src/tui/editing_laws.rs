//! What the edits of the composer take away, put in and leave alone, told from
//! the characters around the cursor.

use vstd::prelude::*;

use crate::path_laws::lemma_split_join;
use crate::text::{
    after_previous_char, is_whitespace, lemma_next_char, next_char, run_end, run_start, split_char,
};
use crate::text_laws::runs_reach_as_far_as_they_can;
use crate::tui::composer::{
    last_nonblank, lemma_after_previous_char, lemma_line_bounds, ComposerModel, VimMode,
};

verus! {

// ---------------------------------------------------------------------------
// What every edit keeps
// ---------------------------------------------------------------------------

/// What can be recalled is the same in two states of the composer.
pub open spec fn recalls_the_same(a: ComposerModel, b: ComposerModel) -> bool {
    &&& a.input_history == b.input_history
    &&& a.draft_history == b.draft_history
    &&& a.search == b.search
    &&& a.paste_burst == b.paste_burst
    &&& a.slash_menu_selected == b.slash_menu_selected
    &&& a.vim_enabled == b.vim_enabled
    &&& a.vim_mode == b.vim_mode
    &&& a.vim_pending_d == b.vim_pending_d
}

/// Earlier inputs are no longer being recalled.
pub open spec fn recalls_nothing(m: ComposerModel) -> bool {
    m.history_index is None && m.navigation_draft is None
}

/// The menus are shown, with the first mention selected.
pub open spec fn shows_menus(m: ComposerModel) -> bool {
    !m.slash_menu_hidden && !m.mention_menu_hidden && m.mention_menu_selected == 0
}

/// Edits keep what can be recalled, and end the recalling of earlier inputs.
/// Only a kill changes the kill buffer.
pub proof fn edits_keep_histories(m: ComposerModel, ch: char)
    ensures
        recalls_the_same(m, m.typed(ch)) && recalls_nothing(m.typed(ch)),
        recalls_the_same(m, m.backspaced()) && recalls_nothing(m.backspaced()),
        recalls_the_same(m, m.deleted_forward()) && recalls_nothing(m.deleted_forward()),
        recalls_the_same(m, m.word_deleted_backward()) && recalls_nothing(
            m.word_deleted_backward(),
        ),
        recalls_the_same(m, m.word_deleted_forward()) && recalls_nothing(m.word_deleted_forward()),
        recalls_the_same(m, m.line_start_deleted()) && recalls_nothing(m.line_start_deleted()),
        recalls_the_same(m, m.killed()) && recalls_nothing(m.killed()),
        m.kill_buffer.len() > 0 ==> recalls_the_same(m, m.yanked()) && recalls_nothing(m.yanked()),
        m.typed(ch).kill_buffer == m.kill_buffer,
        m.backspaced().kill_buffer == m.kill_buffer,
        m.deleted_forward().kill_buffer == m.kill_buffer,
        m.word_deleted_backward().kill_buffer == m.kill_buffer,
        m.word_deleted_forward().kill_buffer == m.kill_buffer,
        m.line_start_deleted().kill_buffer == m.kill_buffer,
        m.yanked().kill_buffer == m.kill_buffer,
        m.typed(ch).selected_attachment is None,
        m.backspaced().selected_attachment is None,
        m.deleted_forward().selected_attachment is None,
        m.word_deleted_backward().selected_attachment is None,
        m.word_deleted_forward().selected_attachment is None,
        m.line_start_deleted().selected_attachment is None,
        shows_menus(m.typed(ch)),
        m.backspaced().input.len() < m.input.len() ==> shows_menus(m.backspaced()),
        m.deleted_forward().input.len() < m.input.len() ==> shows_menus(m.deleted_forward()),
        m.killed().input.len() < m.input.len() ==> shows_menus(m.killed()),
        m.kill_buffer.len() > 0 ==> shows_menus(m.yanked()),
{
}

/// Clearing empties the input and forgets what is selected and held back; what
/// can be recalled is kept, and nothing is being recalled.
pub proof fn clearing_keeps_histories(m: ComposerModel)
    ensures
        m.cleared().input.len() == 0,
        m.cleared().cursor == 0,
        m.cleared().input_history == m.input_history,
        m.cleared().draft_history == m.draft_history,
        m.cleared().kill_buffer == m.kill_buffer,
        m.cleared().search == m.search,
        m.cleared().selected_attachment is None,
        !m.cleared().paste_burst.holds_text(),
        m.cleared().slash_menu_selected == 0,
        !m.cleared().slash_menu_hidden,
        recalls_nothing(m.cleared()),
{
}

// ---------------------------------------------------------------------------
// Characters
// ---------------------------------------------------------------------------

/// Typing puts the character at the cursor, which moves behind it; putting in a
/// text puts in its characters one after the other.
pub proof fn typing_goes_in_at_the_cursor(m: ComposerModel, ch: char, text: Seq<char>)
    requires
        0 <= m.cursor <= m.input.len(),
    ensures
        m.typed(ch).input == m.input.insert(m.cursor, ch),
        m.typed(ch).cursor == m.cursor + 1,
        text.len() > 0 ==> m.inserted(text).input == m.inserted(text.drop_last()).input.insert(
            m.cursor + text.len() - 1,
            text.last(),
        ),
        m.inserted(text).cursor == m.cursor + text.len(),
        m.inserted(Seq::empty()) == m,
{
    assert(m.typed(ch).input =~= m.input.insert(m.cursor, ch));
    if text.len() > 0 {
        let front = text.drop_last();
        if front.len() == 0 {
            assert(m.inserted(front) == m);
        }
        assert(m.inserted(front).input =~= m.input.take(m.cursor) + front + m.input.skip(
            m.cursor,
        ));
        assert(m.inserted(text).input =~= m.inserted(front).input.insert(
            m.cursor + text.len() - 1,
            text.last(),
        ));
    }
}

/// A text goes in at the end where the cursor stands past it.
pub proof fn typing_past_the_end_appends(m: ComposerModel, text: Seq<char>)
    requires
        m.cursor >= m.input.len(),
        text.len() > 0,
    ensures
        m.inserted(text).input == m.input + text,
        m.inserted(text).cursor == m.input.len() + text.len(),
{
    assert(m.inserted(text).input =~= m.input + text);
}

/// Backspace takes away the character before the cursor and nothing else; at
/// the beginning there is none.
pub proof fn backspace_takes_the_character_before(m: ComposerModel)
    requires
        0 <= m.cursor <= m.input.len(),
    ensures
        m.cursor > 0 ==> m.backspaced().input == m.input.remove(m.cursor - 1)
            && m.backspaced().cursor == m.cursor - 1,
        m.cursor == 0 ==> m.backspaced().input == m.input && m.backspaced().cursor == 0,
{
    if m.cursor > 0 {
        assert(m.backspaced().input =~= m.input.remove(m.cursor - 1));
    }
}

/// Deleting takes away the character at the cursor, which stays; at the end
/// there is none.
pub proof fn deleting_takes_the_character_at_the_cursor(m: ComposerModel)
    requires
        0 <= m.cursor <= m.input.len(),
    ensures
        m.cursor < m.input.len() ==> m.deleted_forward().input == m.input.remove(m.cursor),
        m.cursor == m.input.len() ==> m.deleted_forward().input == m.input,
        m.deleted_forward().cursor == m.cursor,
{
    if m.cursor < m.input.len() {
        assert(m.deleted_forward().input =~= m.input.remove(m.cursor));
    }
}

/// Deleting undoes backspacing from the other side: both take the same
/// character when the cursor is moved over it.
pub proof fn both_deletions_meet(m: ComposerModel)
    requires
        0 < m.cursor <= m.input.len(),
    ensures
        m.backspaced().input == m.at(m.cursor - 1).deleted_forward().input,
        m.backspaced().cursor == m.at(m.cursor - 1).deleted_forward().cursor,
{
}

// ---------------------------------------------------------------------------
// Words and lines
// ---------------------------------------------------------------------------

/// Between `from` and `to` stand blanks only, or none.
pub open spec fn blank_between(s: Seq<char>, from: int, to: int, blank: bool) -> bool {
    forall|i: int| from <= i < to ==> is_whitespace(#[trigger] s[i]) == blank
}

/// Deleting a word backward takes away the blanks before the cursor and the
/// whole word before them, and keeps the rest. The cursor moves to the gap.
pub proof fn backward_deletion_takes_a_word(m: ComposerModel)
    requires
        0 <= m.cursor <= m.input.len(),
    ensures
        ({
            let r = m.word_deleted_backward();
            &&& 0 <= r.cursor <= m.cursor
            &&& r.input == m.input.take(r.cursor) + m.input.skip(m.cursor)
            &&& exists|gap: int|
                r.cursor <= gap <= m.cursor && #[trigger] blank_between(
                    m.input,
                    gap,
                    m.cursor,
                    true,
                ) && blank_between(m.input, r.cursor, gap, false) && (gap > 0 ==> gap
                    > r.cursor && !is_whitespace(m.input[gap - 1]))
            &&& r.cursor > 0 ==> is_whitespace(m.input[r.cursor - 1])
        }),
{
    let c = m.cursor;
    let gap = run_start(m.input, c, true);
    runs_reach_as_far_as_they_can(m.input, c, true);
    runs_reach_as_far_as_they_can(m.input, gap, false);
    let start = run_start(m.input, gap, false);
    assert(blank_between(m.input, gap, c, true));
    assert(blank_between(m.input, start, gap, false));
    let r = m.word_deleted_backward();
    if c > 0 {
        assert(start < c) by {
            if gap > 0 {
                assert(!is_whitespace(m.input[gap - 1]));
            }
        }
        assert(r.cursor == start);
        assert(r.input =~= m.input.take(start) + m.input.skip(c));
    } else {
        assert(r.input =~= m.input.take(0) + m.input.skip(0));
    }
}

/// Deleting a word forward takes away the blanks behind the cursor and the
/// whole word behind them, and keeps the rest. The cursor stays.
pub proof fn forward_deletion_takes_a_word(m: ComposerModel)
    requires
        0 <= m.cursor <= m.input.len(),
    ensures
        ({
            let r = m.word_deleted_forward();
            &&& r.cursor == m.cursor
            &&& exists|gap: int, end: int|
                m.cursor <= gap <= end <= m.input.len() && #[trigger] blank_between(
                    m.input,
                    m.cursor,
                    gap,
                    true,
                ) && #[trigger] blank_between(m.input, gap, end, false) && r.input == m.input.take(
                    m.cursor,
                ) + m.input.skip(end) && (gap < m.input.len() ==> gap < end) && (end
                    < m.input.len() ==> is_whitespace(m.input[end]))
        }),
{
    let c = m.cursor;
    runs_reach_as_far_as_they_can(m.input, c, true);
    let gap = run_end(m.input, c, true);
    runs_reach_as_far_as_they_can(m.input, gap, false);
    let end = run_end(m.input, gap, false);
    assert(blank_between(m.input, c, gap, true));
    assert(blank_between(m.input, gap, end, false));
    let r = m.word_deleted_forward();
    assert(r.input =~= m.input.take(c) + m.input.skip(end));
}

/// Deleting to the beginning of the line takes away what stands between the
/// last line break and the cursor, and nothing else.
pub proof fn line_start_deletion_stops_at_the_break(m: ComposerModel)
    requires
        0 <= m.cursor <= m.input.len(),
    ensures
        ({
            let r = m.line_start_deleted();
            &&& 0 <= r.cursor <= m.cursor
            &&& r.input == m.input.take(r.cursor) + m.input.skip(m.cursor)
            &&& forall|i: int| r.cursor <= i < m.cursor ==> m.input[i] != '\n'
            &&& r.cursor > 0 ==> m.input[r.cursor - 1] == '\n'
            &&& m.line_start() == m.cursor ==> r.slash_menu_hidden == m.slash_menu_hidden
                && r.mention_menu_hidden == m.mention_menu_hidden
            &&& m.line_start() < m.cursor ==> shows_menus(r)
        }),
{
    lemma_after_previous_char(m.input, '\n', m.cursor);
    lemma_no_break_since(m.input, m.cursor);
    let r = m.line_start_deleted();
    assert(r.input =~= m.input.take(r.cursor) + m.input.skip(m.cursor));
}

proof fn lemma_no_break_since(s: Seq<char>, i: int)
    requires
        0 <= i <= s.len(),
    ensures
        forall|j: int| after_previous_char(s, '\n', i) <= j < i ==> s[j] != '\n',
    decreases i,
{
    if i > 0 && s[i - 1] != '\n' {
        lemma_no_break_since(s, i - 1);
    }
}

/// A kill takes what stands between the cursor and the end of the line, or the
/// line break alone where the cursor stands on it. What it takes is in the kill
/// buffer, and nothing is lost.
pub proof fn kills_take_the_rest_of_the_line(m: ComposerModel)
    requires
        0 <= m.cursor <= m.input.len(),
    ensures
        m.cursor < m.input.len() ==> {
            let k = m.killed();
            let end = m.cursor + k.kill_buffer.len();
            &&& k.cursor == m.cursor
            &&& m.input == k.input.take(m.cursor) + k.kill_buffer + k.input.skip(m.cursor)
            &&& m.input[m.cursor] == '\n' ==> k.kill_buffer == seq!['\n']
            &&& m.input[m.cursor] != '\n' ==> !k.kill_buffer.contains('\n') && (end
                == m.input.len() || m.input[end] == '\n')
        },
        m.cursor == m.input.len() ==> m.killed().input == m.input && m.killed().kill_buffer
            == m.kill_buffer && m.killed().cursor == m.cursor,
{
    lemma_next_char(m.input, '\n', m.cursor);
    if m.cursor < m.input.len() {
        let k = m.killed();
        let c = m.cursor;
        let end = m.kill_end();
        assert(k.kill_buffer == m.input.subrange(c, end));
        assert(k.input.take(c) =~= m.input.take(c));
        assert(k.input.skip(c) =~= m.input.skip(end));
        assert(m.input =~= k.input.take(c) + k.kill_buffer + k.input.skip(c));
        if m.input[c] == '\n' {
            assert(next_char(m.input, '\n', c) == c);
            assert(k.kill_buffer =~= seq!['\n']);
        } else {
            assert(end == next_char(m.input, '\n', c));
            if k.kill_buffer.contains('\n') {
                let j = choose|j: int| 0 <= j < k.kill_buffer.len() && k.kill_buffer[j] == '\n';
                assert(m.input[c + j] == '\n');
            }
        }
    }
}

/// A yank puts the kill buffer in at the cursor, which moves behind it.
pub proof fn yanks_put_the_kill_buffer_in(m: ComposerModel)
    requires
        0 <= m.cursor <= m.input.len(),
    ensures
        m.yanked().input == m.input.take(m.cursor) + m.kill_buffer + m.input.skip(m.cursor),
        m.yanked().cursor == m.cursor + m.kill_buffer.len(),
{
    if m.kill_buffer.len() == 0 {
        assert(m.input =~= m.input.take(m.cursor) + m.kill_buffer + m.input.skip(m.cursor));
    }
}

/// Moving to the next word passes the rest of this word and the blanks behind
/// it: it ends on the beginning of a word or at the end of the text.
pub proof fn next_word_passes_one_word(m: ComposerModel)
    requires
        0 <= m.cursor < m.input.len(),
    ensures
        m.cursor < m.next_word() <= m.input.len(),
        exists|gap: int|
            m.cursor <= gap <= m.next_word() && #[trigger] blank_between(
                m.input,
                m.cursor,
                gap,
                false,
            ) && blank_between(m.input, gap, m.next_word(), true),
        m.next_word() < m.input.len() ==> !is_whitespace(m.input[m.next_word()]) && is_whitespace(
            m.input[m.next_word() - 1],
        ),
{
    let c = m.cursor;
    runs_reach_as_far_as_they_can(m.input, c, false);
    let gap = run_end(m.input, c, false);
    runs_reach_as_far_as_they_can(m.input, gap, true);
    let next = run_end(m.input, gap, true);
    assert(m.next_word() == next);
    assert(blank_between(m.input, c, gap, false));
    assert(blank_between(m.input, gap, next, true));
    if gap == c {
        assert(is_whitespace(m.input[c]));
    }
    if next < m.input.len() {
        assert(gap < next) by {
            assert(is_whitespace(m.input[gap]));
        }
        assert(is_whitespace(m.input[next - 1]));
    }
}

/// A word begins here: it is not blank, and a blank or nothing stands before.
pub open spec fn word_begins(s: Seq<char>, i: int) -> bool {
    0 <= i < s.len() && !is_whitespace(s[i]) && (i == 0 || is_whitespace(s[i - 1]))
}

/// Moving to the previous word ends on the last beginning of a word before the
/// cursor, or at the beginning of the text where there is none.
pub proof fn previous_word_is_the_last_before(m: ComposerModel)
    requires
        0 < m.cursor <= m.input.len(),
    ensures
        0 <= m.previous_word() < m.cursor,
        m.previous_word() > 0 ==> word_begins(m.input, m.previous_word()),
        forall|i: int| m.previous_word() < i < m.cursor ==> !word_begins(m.input, i),
{
    let s = m.input;
    let from = last_nonblank(s, m.cursor - 1);
    lemma_nonblank(s, m.cursor - 1);
    let start = run_start(s, from, false);
    runs_reach_as_far_as_they_can(s, from, false);
    assert(m.previous_word() == start);
    if start > 0 {
        assert(from > 0);
        assert(!is_whitespace(s[from]));
        assert(is_whitespace(s[start - 1]));
        if start < from {
            assert(!is_whitespace(s[start]));
        }
    }
    assert forall|i: int| start < i < m.cursor implies !word_begins(s, i) by {
        if i <= from {
            assert(!is_whitespace(s[i - 1]));
        } else {
            assert(is_whitespace(s[i]));
        }
    }
}

proof fn lemma_nonblank(s: Seq<char>, i: int)
    requires
        0 <= i < s.len(),
    ensures
        0 <= last_nonblank(s, i) <= i,
        last_nonblank(s, i) > 0 ==> !is_whitespace(s[last_nonblank(s, i)]),
        forall|j: int| last_nonblank(s, i) < j <= i ==> is_whitespace(#[trigger] s[j]),
    decreases i,
{
    if i > 0 && is_whitespace(s[i]) {
        lemma_nonblank(s, i - 1);
    }
}

// ---------------------------------------------------------------------------
// Working like vim
// ---------------------------------------------------------------------------

/// Deleting under the cursor takes that character. The cursor stays, or moves
/// onto the last character where it would stand behind it.
pub proof fn deletion_under_the_cursor(m: ComposerModel)
    requires
        0 <= m.cursor < m.input.len(),
    ensures
        m.under_cursor_deleted().input == m.input.remove(m.cursor),
        m.cursor + 1 < m.input.len() ==> m.under_cursor_deleted().cursor == m.cursor,
        m.cursor + 1 == m.input.len() && m.cursor > 0 ==> m.under_cursor_deleted().cursor
            == m.cursor - 1,
        m.input.len() == 1 ==> m.under_cursor_deleted().cursor == 0,
        m.under_cursor_deleted().kill_buffer == m.kill_buffer,
        m.under_cursor_deleted().input_history == m.input_history,
{
    assert(m.under_cursor_deleted().input =~= m.input.remove(m.cursor));
}

/// Deleting a line takes exactly one of the lines of the text: the one that the
/// cursor stands in. The last one left is emptied.
pub proof fn line_deletion_takes_one_line(m: ComposerModel)
    requires
        0 <= m.cursor <= m.input.len(),
    ensures
        ({
            let s = m.input;
            let line = s.subrange(m.line_start(), m.line_end());
            &&& m.line_start() <= m.cursor <= m.line_end()
            &&& !line.contains('\n')
            &&& m.line_start() > 0 || m.line_end() < s.len() ==> exists|
                before: Seq<Seq<char>>,
                behind: Seq<Seq<char>>,
            |
                split_char(s, '\n') == #[trigger] (before + seq![line] + behind) && split_char(
                    m.line_deleted().input,
                    '\n',
                ) == before + behind
            &&& m.line_start() == 0 && m.line_end() == s.len() ==> m.line_deleted().input.len() == 0
        }),
{
    let s = m.input;
    lemma_line_bounds(m);
    lemma_after_previous_char(s, '\n', m.cursor);
    lemma_no_break_since(s, m.cursor);
    lemma_next_char(s, '\n', m.cursor);
    let a = m.line_start();
    let b = m.line_end();
    let line = s.subrange(a, b);
    assert forall|i: int| 0 <= i < line.len() implies line[i] != '\n' by {
        assert(line[i] == s[a + i]);
        if a + i < m.cursor {
            assert(s[a + i] != '\n');
        }
    }
    lemma_unbroken(line);
    let brk = seq!['\n'];
    let none = Seq::<Seq<char>>::empty();
    let cut = m.line_deleted().input;
    if b < s.len() {
        let rest = s.skip(b + 1);
        if a > 0 {
            let head = s.take(a - 1);
            assert(s =~= head + brk + (line + brk + rest));
            lemma_split_join(line, rest, '\n');
            lemma_split_join(head, line + brk + rest, '\n');
            let before = split_char(head, '\n');
            let behind = split_char(rest, '\n');
            assert(split_char(s, '\n') =~= before + seq![line] + behind);
            assert(cut =~= head + brk + rest);
            lemma_split_join(head, rest, '\n');
        } else {
            let behind = split_char(rest, '\n');
            assert(s =~= line + brk + rest);
            lemma_split_join(line, rest, '\n');
            assert(split_char(s, '\n') =~= none + seq![line] + behind);
            assert(cut =~= rest);
            assert(behind =~= none + behind);
        }
    } else if a > 0 {
        let head = s.take(a - 1);
        let before = split_char(head, '\n');
        assert(s =~= head + brk + line);
        lemma_split_join(head, line, '\n');
        assert(split_char(s, '\n') =~= before + seq![line] + none);
        assert(cut =~= head);
        assert(before =~= before + none);
    }
}

proof fn lemma_unbroken(line: Seq<char>)
    requires
        forall|i: int| 0 <= i < line.len() ==> line[i] != '\n',
    ensures
        split_char(line, '\n') == seq![line],
{
    lemma_next_char(line, '\n', 0);
}

/// Moving down a line keeps the column, or stops at the end of a shorter line;
/// so does moving up.
pub proof fn moving_over_lines_keeps_the_column(m: ComposerModel)
    requires
        0 <= m.cursor <= m.input.len(),
    ensures
        m.cursor < m.input.len() && m.line_end() < m.input.len() ==> {
            let d = m.moved_down();
            &&& d.input == m.input
            &&& d.line_start() == m.line_end() + 1
            &&& d.column() <= m.column()
            &&& d.column() == m.column() || d.cursor == d.line_end()
        },
        m.line_start() > 0 ==> {
            let u = m.moved_up();
            &&& u.input == m.input
            &&& u.line_end() == m.line_start() - 1
            &&& u.column() <= m.column()
            &&& u.column() == m.column() || u.cursor == u.line_end()
        },
{
    let s = m.input;
    lemma_line_bounds(m);
    lemma_next_char(s, '\n', m.cursor);
    lemma_after_previous_char(s, '\n', m.cursor);
    lemma_no_break_since(s, m.cursor);
    if m.cursor < s.len() && m.line_end() < s.len() {
        let start = m.line_end() + 1;
        lemma_next_char(s, '\n', start);
        let d = m.moved_down();
        lemma_start_of(s, start, d.cursor);
        lemma_next_char(s, '\n', d.cursor);
    }
    if m.line_start() > 0 {
        let end = m.line_start() - 1;
        lemma_after_previous_char(s, '\n', end);
        lemma_no_break_since(s, end);
        let u = m.moved_up();
        lemma_start_of(s, after_previous_char(s, '\n', end), u.cursor);
        lemma_next_char(s, '\n', u.cursor);
    }
}

proof fn lemma_start_of(s: Seq<char>, start: int, i: int)
    requires
        0 <= start <= i <= s.len(),
        start > 0 ==> s[start - 1] == '\n',
        forall|j: int| start <= j < i ==> s[j] != '\n',
    ensures
        after_previous_char(s, '\n', i) == start,
    decreases i,
{
    if i > start {
        lemma_start_of(s, start, i - 1);
    }
}

/// Leaving insertion puts the cursor on a character where there is one, and
/// moves it only from behind the last one.
pub proof fn normal_mode_stands_on_a_character(m: ComposerModel)
    requires
        0 <= m.cursor,
    ensures
        m.in_normal_mode().vim_mode == VimMode::Normal,
        !m.in_normal_mode().vim_pending_d,
        m.input.len() > 0 ==> m.in_normal_mode().cursor < m.input.len(),
        m.cursor < m.input.len() ==> m.in_normal_mode().cursor == m.cursor,
        m.cursor >= m.input.len() > 0 ==> m.in_normal_mode().cursor == m.input.len() - 1,
        m.input.len() == 0 ==> m.in_normal_mode().cursor == 0,
        m.in_normal_mode().input == m.input,
{
}

/// There is a line below where a line break stands at or behind the cursor, and
/// one above where one stands before it.
pub proof fn line_breaks_tell_lines_apart(m: ComposerModel)
    requires
        0 <= m.cursor <= m.input.len(),
    ensures
        m.has_line_below() <==> exists|j: int|
            m.cursor <= j < m.input.len() && #[trigger] m.input[j] == '\n',
        m.has_line_above() <==> exists|j: int|
            0 <= j < m.cursor && #[trigger] m.input[j] == '\n',
{
    lemma_next_char(m.input, '\n', m.cursor);
    lemma_after_previous_char(m.input, '\n', m.cursor);
    lemma_no_break_since(m.input, m.cursor);
    if m.has_line_below() {
        assert(m.input[m.line_end()] == '\n');
    }
    if m.has_line_above() {
        assert(m.input[m.line_start() - 1] == '\n');
    }
}

} // verus!
