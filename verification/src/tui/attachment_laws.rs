//! What an attachment looks like in the composer's text, how it gets there and
//! how it is taken out again.

use vstd::prelude::*;

use crate::text::{
    contains_text, find_last_text, find_text, is_whitespace, lemma_find_text, lemma_next_char,
    next_char, occurs_at, trimmed,
};
use crate::text_laws::{all_blank, the_last_occurrence_is_found, trimming_takes_outer_blanks};
use crate::tui::attachments::{
    attachment_at, attachment_path, attachment_text, attachments_from, attachments_in,
    fits_attachment, lemma_attachments_bounded, AttachmentModel, ATTACHMENT_PREFIX, KIND_SEPARATOR,
    PATH_SEPARATOR,
};
use crate::tui::composer::{insertion_keeps_text, ComposerModel};

verus! {

// ---------------------------------------------------------------------------
// Reading
// ---------------------------------------------------------------------------

/// An attachment is written between two places of a text: its kind, which holds
/// no separator, and its path, which holds no separator either, or stands
/// behind the last one.
pub open spec fn is_written(s: Seq<char>, r: AttachmentModel, rest: Seq<char>) -> bool {
    &&& 0 <= r.start < r.end <= s.len()
    &&& s.subrange(r.start, r.end) == "[Attached "@ + r.kind + ": "@ + rest + "]"@
    &&& fits_attachment(r.kind + ": "@ + rest)
    &&& forall|i: int| 0 <= i < r.kind.len() ==> !occurs_at(r.kind + ": "@ + rest, ": "@, i)
    &&& (r.path == rest && !contains_text(rest, " at "@)) || (exists|d: Seq<char>|
        rest == #[trigger] (d + " at "@ + r.path) && forall|i: int|
            d.len() < i ==> !occurs_at(rest, " at "@, i))
}

proof fn lemma_words()
    ensures
        "[Attached "@.len() == 10,
        ": "@.len() == 2,
        " at "@.len() == 4,
        "]"@ == seq![']'],
        ATTACHMENT_PREFIX@ == "[Attached "@,
        KIND_SEPARATOR@ == ": "@,
        PATH_SEPARATOR@ == " at "@,
{
    reveal_strlit("[Attached ");
    reveal_strlit(": ");
    reveal_strlit(" at ");
    reveal_strlit("]");
    assert("]"@ =~= seq![']']);
}

proof fn lemma_read_path(rest: Seq<char>)
    ensures
        ({
            let path = attachment_path(rest);
            (path == rest && !contains_text(rest, " at "@)) || (exists|d: Seq<char>|
                rest == #[trigger] (d + " at "@ + path) && forall|i: int|
                    d.len() < i ==> !occurs_at(rest, " at "@, i))
        }),
{
    lemma_words();
    the_last_occurrence_is_found(rest, " at "@, rest.len() as int);
    match find_last_text(rest, " at "@, rest.len() as int) {
        Some(i) => {
            let d = rest.take(i);
            let path = rest.skip(i + 4);
            assert(rest.subrange(i, i + 4) == " at "@);
            assert(rest =~= d + rest.subrange(i, i + 4) + path);
            assert forall|j: int| d.len() < j implies !occurs_at(rest, " at "@, j) by {}
        },
        None => {
            assert(!contains_text(rest, " at "@)) by {
                if contains_text(rest, " at "@) {
                    let j = choose|j: int| occurs_at(rest, " at "@, j);
                    assert(0 <= j < rest.len());
                }
            }
        },
    }
}

proof fn lemma_read_at(s: Seq<char>, i: int)
    requires
        occurs_at(s, "[Attached "@, i),
    ensures
        attachment_at(s, i) matches Some(r) ==> r.start == i && exists|rest: Seq<char>|
            #[trigger] is_written(s, r, rest),
{
    lemma_words();
    let from = i + 10;
    lemma_next_char(s, ']', from);
    lemma_next_char(s, '\n', from);
    let close = next_char(s, ']', from);
    if let Some(r) = attachment_at(s, i) {
        let body = s.subrange(from, close);
        lemma_find_text(body, ": "@, 0);
        let k = find_text(body, ": "@, 0)->0;
        let rest = body.skip(k + 2);
        assert(body.subrange(k, k + 2) == ": "@);
        assert(body =~= r.kind + body.subrange(k, k + 2) + rest);
        lemma_read_path(rest);
        assert(s.subrange(i, i + 10) == "[Attached "@);
        assert(s.subrange(r.start, r.end) =~= s.subrange(i, i + 10) + body + seq![s[close]]);
        assert(s.subrange(r.start, r.end) =~= "[Attached "@ + r.kind + ": "@ + rest + "]"@);
        assert forall|j: int| 0 <= j < body.len() implies body[j] != ']' && body[j] != '\n' by {
            assert(body[j] == s[from + j]);
        }
        assert(r.kind + ": "@ + rest == body);
        assert(is_written(s, r, rest));
    }
}

/// Every attachment that is found is written in the text, where it is said to
/// be.
pub proof fn found_attachments_are_written(s: Seq<char>, from: int, k: int)
    requires
        0 <= from <= s.len(),
        0 <= k < attachments_from(s, from).len(),
    ensures
        exists|rest: Seq<char>| #[trigger] is_written(s, attachments_from(s, from)[k], rest),
    decreases s.len() + 1 - from,
{
    lemma_words();
    lemma_find_text(s, "[Attached "@, from);
    let i = find_text(s, ATTACHMENT_PREFIX@, from)->0;
    lemma_read_at(s, i);
    match attachment_at(s, i) {
        Some(r) => {
            if k > 0 {
                found_attachments_are_written(s, r.end, k - 1);
                assert(attachments_from(s, from)[k] == attachments_from(s, r.end)[k - 1]);
            } else {
                assert(attachments_from(s, from)[0] == r);
            }
        },
        None => {
            found_attachments_are_written(s, i + 1, k);
        },
    }
}

/// The first place at or behind `from` where an attachment can be read is the
/// first that is found, and the search goes on behind it.
pub proof fn no_attachment_is_passed_over(s: Seq<char>, from: int, i: int)
    requires
        0 <= from <= i <= s.len(),
        occurs_at(s, "[Attached "@, i),
        attachment_at(s, i) is Some,
        forall|j: int|
            from <= j < i && #[trigger] occurs_at(s, "[Attached "@, j) ==> attachment_at(s, j)
                is None,
    ensures
        attachments_from(s, from).len() > 0,
        Some(attachments_from(s, from)[0]) == attachment_at(s, i),
        attachments_from(s, from).skip(1) == attachments_from(s, attachments_from(s, from)[0].end),
    decreases i - from,
{
    lemma_words();
    lemma_find_text(s, "[Attached "@, from);
    let f = find_text(s, ATTACHMENT_PREFIX@, from)->0;
    lemma_read_at(s, i);
    if f == i {
        let r = attachment_at(s, i)->0;
        assert(attachments_from(s, from) == seq![r] + attachments_from(s, r.end));
        assert(attachments_from(s, from).skip(1) =~= attachments_from(s, r.end));
    } else {
        assert(attachment_at(s, f) is None);
        no_attachment_is_passed_over(s, f + 1, i);
    }
}

/// What is written for an attachment with a description is read back: the kind
/// and the path, over the whole of it.
pub proof fn described_attachments_are_read_back(
    kind: Seq<char>,
    path: Seq<char>,
    description: Seq<char>,
)
    requires
        fits_attachment(kind),
        fits_attachment(path),
        fits_attachment(trimmed(description)),
        trimmed(description).len() > 0,
        forall|i: int| 0 <= i < kind.len() ==> kind[i] != ':',
        !contains_text(" "@ + path, " at "@),
    ensures
        attachments_in(attachment_text(kind, path, Some(description))).len() == 1,
        attachments_in(attachment_text(kind, path, Some(description)))[0].kind == kind,
        attachments_in(attachment_text(kind, path, Some(description)))[0].path == path,
        attachments_in(attachment_text(kind, path, Some(description)))[0].start == 0,
        attachments_in(attachment_text(kind, path, Some(description)))[0].end == attachment_text(
            kind,
            path,
            Some(description),
        ).len(),
{
    lemma_words();
    let d = trimmed(description);
    let s = attachment_text(kind, path, Some(description));
    let rest = d + " at "@ + path;
    let body = kind + ": "@ + rest;
    let close = s.len() - 1;
    assert(s =~= "[Attached "@ + body + "]"@);
    assert(s.subrange(0, 10) =~= "[Attached "@);
    assert(s.subrange(10, close) =~= body);
    lemma_described_body(kind, d, path);
    assert forall|i: int| 10 <= i < close implies s[i] != ']' && s[i] != '\n' by {
        assert(s[i] == body[i - 10]);
    }
    assert(s[close] == ']');
    lemma_next_char(s, ']', 10);
    lemma_next_char(s, '\n', 10);
    assert(next_char(s, ']', 10) == close);
    lemma_described_path(d, path);
    let n = kind.len() as int;
    assert(body.take(n) =~= kind);
    assert(body.skip(n + 2) =~= rest);
    assert(rest.skip(d.len() as int + 4) =~= path);
    let r = attachment_at(s, 0)->0;
    lemma_find_text(s, ATTACHMENT_PREFIX@, 0);
    assert(occurs_at(s, ATTACHMENT_PREFIX@, 0));
    lemma_find_text(s, ATTACHMENT_PREFIX@, s.len() as int);
    assert(find_text(s, ATTACHMENT_PREFIX@, s.len() as int) is None);
    assert(attachments_from(s, s.len() as int).len() == 0);
    assert(attachments_from(s, 0) == seq![r] + attachments_from(s, s.len() as int));
}

proof fn lemma_described_body(kind: Seq<char>, d: Seq<char>, path: Seq<char>)
    requires
        fits_attachment(kind),
        fits_attachment(d),
        fits_attachment(path),
        forall|i: int| 0 <= i < kind.len() ==> kind[i] != ':',
    ensures
        fits_attachment(kind + ": "@ + (d + " at "@ + path)),
        find_text(kind + ": "@ + (d + " at "@ + path), ": "@, 0) == Some(kind.len() as int),
{
    reveal_strlit(": ");
    reveal_strlit(" at ");
    let rest = d + " at "@ + path;
    let body = kind + ": "@ + rest;
    let n = kind.len() as int;
    assert forall|j: int| 0 <= j < rest.len() implies rest[j] != ']' && rest[j] != '\n' by {
        if j < d.len() {
            assert(rest[j] == d[j]);
        } else if j < d.len() + 4 {
            assert(rest[j] == " at "@[j - d.len()]);
        } else {
            assert(rest[j] == path[j - d.len() - 4]);
        }
    }
    assert forall|j: int| 0 <= j < body.len() implies body[j] != ']' && body[j] != '\n' by {
        if j < n {
            assert(body[j] == kind[j]);
        } else if j < n + 2 {
            assert(body[j] == ": "@[j - n]);
        } else {
            assert(body[j] == rest[j - n - 2]);
        }
    }
    lemma_find_text(body, ": "@, 0);
    assert(body.subrange(n, n + 2) =~= ": "@);
    assert(occurs_at(body, ": "@, n));
    assert forall|i: int| 0 <= i < n implies !occurs_at(body, ": "@, i) by {
        if occurs_at(body, ": "@, i) {
            assert(body.subrange(i, i + 2)[0] == ':');
            assert(body[i] == kind[i]);
        }
    }
}

proof fn lemma_described_path(d: Seq<char>, path: Seq<char>)
    requires
        !contains_text(" "@ + path, " at "@),
    ensures
        find_last_text(d + " at "@ + path, " at "@, (d + " at "@ + path).len() as int) == Some(
            d.len() as int,
        ),
{
    reveal_strlit(" at ");
    reveal_strlit(" ");
    let rest = d + " at "@ + path;
    let m = d.len() as int;
    the_last_occurrence_is_found(rest, " at "@, rest.len() as int);
    assert(rest.subrange(m, m + 4) =~= " at "@);
    assert(occurs_at(rest, " at "@, m));
    assert forall|j: int| m < j < rest.len() implies !occurs_at(rest, " at "@, j) by {
        if occurs_at(rest, " at "@, j) {
            lemma_no_later_separator(d, path, j);
        }
    }
}

proof fn lemma_no_later_separator(d: Seq<char>, path: Seq<char>, j: int)
    requires
        d.len() < j,
        occurs_at(d + " at "@ + path, " at "@, j),
    ensures
        contains_text(" "@ + path, " at "@),
{
    reveal_strlit(" at ");
    reveal_strlit(" ");
    let rest = d + " at "@ + path;
    let m = d.len() as int;
    let found = rest.subrange(j, j + 4);
    assert(found == " at "@);
    assert(rest[j] == found[0]);
    if j < m + 3 {
        assert(rest[j] == " at "@[j - m]);
    } else {
        let spaced = " "@ + path;
        let at = j - m - 3;
        assert forall|q: int| 0 <= q < 4 implies spaced.subrange(at, at + 4)[q] == found[q] by {
            assert(found[q] == rest[j + q]);
            assert(spaced[at + q] == rest[j + q]);
        }
        assert(spaced.subrange(at, at + 4) =~= found);
        assert(occurs_at(spaced, " at "@, at));
    }
}

/// A blank description is left out.
pub proof fn blank_descriptions_are_left_out(
    kind: Seq<char>,
    path: Seq<char>,
    description: Seq<char>,
)
    requires
        forall|i: int| 0 <= i < description.len() ==> is_whitespace(#[trigger] description[i]),
    ensures
        attachment_text(kind, path, Some(description)) == attachment_text(kind, path, None),
{
    trimming_takes_outer_blanks(description);
    assert(all_blank(description));
}

// ---------------------------------------------------------------------------
// Adding
// ---------------------------------------------------------------------------

/// An attachment is added at the cursor and set off by blanks on both sides:
/// by those that stand there, else by a line break. The rest of the text stays,
/// and the cursor stands behind what was added.
pub proof fn added_attachments_are_set_off(
    m: ComposerModel,
    kind: Seq<char>,
    path: Seq<char>,
    description: Option<Seq<char>>,
)
    requires
        0 <= m.cursor <= m.input.len(),
    ensures
        ({
            let r = m.attached(kind, path, description);
            let text = attachment_text(kind, path, description);
            let at = m.cursor + if m.cursor == 0 || is_whitespace(m.input[m.cursor - 1]) {
                0int
            } else {
                1
            };
            let end = at + text.len();
            &&& occurs_at(r.input, text, at)
            &&& r.input.take(m.cursor) == m.input.take(m.cursor)
            &&& at > 0 ==> is_whitespace(r.input[at - 1])
            &&& end < r.input.len() && is_whitespace(r.input[end])
            &&& m.cursor < m.input.len() && is_whitespace(m.input[m.cursor]) ==> r.input.skip(end)
                == m.input.skip(m.cursor) && r.cursor == end
            &&& !(m.cursor < m.input.len() && is_whitespace(m.input[m.cursor])) ==> r.input.skip(
                end + 1,
            ) == m.input.skip(m.cursor) && r.input[end] == '\n' && r.cursor == end + 1
            &&& !r.paste_burst.holds_text()
        }),
{
    lemma_words();
    let text = attachment_text(kind, path, description);
    let added = m.set_off(text);
    assert(text.len() > 0);
    insertion_keeps_text(m, added);
    let r = m.attached(kind, path, description);
    let c = m.cursor;
    assert(r.input == m.input.take(c) + added + m.input.skip(c));
    let at = c + if c == 0 || is_whitespace(m.input[c - 1]) {
        0int
    } else {
        1
    };
    let end = at + text.len();
    assert(r.input.subrange(at, end) =~= text);
    assert(r.input.take(c) =~= m.input.take(c));
    assert(is_whitespace('\n'));
    if at > 0 {
        assert(r.input[at - 1] == if at == c {
            m.input[c - 1]
        } else {
            '\n'
        });
    }
    if c < m.input.len() && is_whitespace(m.input[c]) {
        assert(r.input.skip(end) =~= m.input.skip(c));
        assert(r.input[end] == m.input[c]);
    } else {
        assert(r.input[end] == '\n');
        assert(r.input.skip(end + 1) =~= m.input.skip(c));
    }
}

// ---------------------------------------------------------------------------
// Selecting and removing
// ---------------------------------------------------------------------------

/// Selecting backward starts at the last attachment, goes on to the one before,
/// and stays at the first.
pub proof fn selecting_backward_goes_on_to_the_first(m: ComposerModel, i: usize)
    requires
        m.attachment_count() <= usize::MAX,
        0 < m.attachment_count(),
    ensures
        m.selected_attachment is None ==> m.previous_selected().selection() == Some(
            (m.attachment_count() - 1) as usize,
        ),
        m.selected_attachment == Some(i) && 0 < i < m.attachment_count()
            ==> m.previous_selected().selection() == Some((i - 1) as usize),
        m.selected_attachment == Some(0usize) ==> m.previous_selected().selection() == Some(0usize),
        m.previous_selected().input == m.input,
        m.previous_selected().cursor == 0,
{
}

/// Selecting forward goes on to the next attachment and, behind the last one,
/// back to the text. It undoes selecting backward.
pub proof fn selecting_forward_undoes_selecting_backward(m: ComposerModel, i: usize)
    requires
        m.attachment_count() <= usize::MAX,
        m.selected_attachment == Some(i),
        i < m.attachment_count(),
    ensures
        i + 1 < m.attachment_count() ==> m.next_selected().selection() == Some((i + 1) as usize),
        i + 1 == m.attachment_count() ==> m.next_selected().selection() is None,
        i > 0 ==> m.previous_selected().next_selected().selection() == Some(i),
        m.next_selected().input == m.input,
        m.next_selected().cursor == m.cursor,
{
}

/// A selection counts while its attachment exists.
pub proof fn selections_of_nothing_do_not_count(m: ComposerModel, i: usize)
    requires
        m.selected_attachment == Some(i),
    ensures
        i < m.attachment_count() ==> m.selection() == Some(i),
        i >= m.attachment_count() ==> m.selection() is None && m.next_selected() == m,
        i >= m.attachment_count() ==> m.selection_removed().selected_attachment is None,
{
}

/// Without attachments nothing can be selected.
pub proof fn nothing_to_select(m: ComposerModel)
    requires
        m.attachment_count() == 0,
    ensures
        m.previous_selected().selection() is None,
        m.next_selected().selection() is None,
        m.selection_removed().input == m.input,
        m.previous_selected().cursor == m.cursor,
{
}

/// Removing the selected attachment takes away its text and no other. What
/// stood before the cursor or behind it stays on its side.
pub proof fn removal_takes_the_selected_text(m: ComposerModel, i: usize)
    requires
        0 <= m.cursor <= m.input.len(),
        m.selected_attachment == Some(i),
        i < m.attachment_count(),
    ensures
        ({
            let a = attachments_in(m.input)[i as int];
            let r = m.selection_removed();
            &&& r.input == m.input.take(a.start) + m.input.skip(a.end)
            &&& m.cursor <= a.start ==> r.input.take(r.cursor) == m.input.take(m.cursor)
            &&& m.cursor >= a.end ==> r.input.skip(r.cursor) == m.input.skip(m.cursor)
            &&& a.start < m.cursor < a.end ==> r.cursor == a.start
            &&& 0 <= r.cursor <= r.input.len()
            &&& r.attachment_count() > i ==> r.selected_attachment == Some(i)
            &&& 0 < r.attachment_count() <= i ==> r.selected_attachment == Some(
                (r.attachment_count() - 1) as usize,
            )
            &&& r.attachment_count() == 0 ==> r.selected_attachment is None
        }),
{
    lemma_attachments_bounded(m.input, 0, i as int);
    let a = attachments_in(m.input)[i as int];
    let r = m.selection_removed();
    assert(r.input =~= m.input.take(a.start) + m.input.skip(a.end));
    if m.cursor <= a.start {
        assert(r.input.take(r.cursor) =~= m.input.take(m.cursor));
    }
    if m.cursor >= a.end {
        assert(r.input.skip(r.cursor) =~= m.input.skip(m.cursor));
    }
}

} // verus!
