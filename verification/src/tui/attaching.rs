//! Adding attachments to the composer's text, selecting and removing them.

use vstd::prelude::*;

use crate::text::{char_is_whitespace, is_whitespace, to_chars};
use crate::tui::attachments::{
    attachment_models, attachment_text, attachments_in, lemma_attachments_bounded,
    media_attachment_reference, media_attachment_references, opt_str,
};
use crate::tui::composer::{lesser, ComposerModel, ComposerState};
use crate::tui::paste_burst::PasteBurstModel;

verus! {

impl ComposerModel {
    /// An attachment at the cursor needs a line break before it.
    pub open spec fn needs_break_before(self) -> bool {
        self.caret() > 0 && !is_whitespace(self.input[self.caret() - 1])
    }

    /// An attachment at the cursor needs a line break behind it.
    pub open spec fn needs_break_behind(self) -> bool {
        self.caret() == self.input.len() || !is_whitespace(self.input[self.caret()])
    }

    /// A reference with the line breaks it needs at the cursor.
    pub open spec fn set_off(self, reference: Seq<char>) -> Seq<char> {
        (if self.needs_break_before() {
            seq!['\n']
        } else {
            Seq::empty()
        }) + reference + (if self.needs_break_behind() {
            seq!['\n']
        } else {
            Seq::empty()
        })
    }

    /// An attachment is inserted at the cursor.
    pub open spec fn attached(
        self,
        kind: Seq<char>,
        path: Seq<char>,
        description: Option<Seq<char>>,
    ) -> ComposerModel {
        ComposerModel {
            paste_burst: PasteBurstModel::idle(),
            ..self.inserted(self.set_off(attachment_text(kind, path, description)))
        }
    }

    /// How many attachments the input refers to.
    pub open spec fn attachment_count(self) -> int {
        attachments_in(self.input).len() as int
    }

    /// The attachment that is selected, where it still exists.
    pub open spec fn selection(self) -> Option<usize> {
        match self.selected_attachment {
            Some(i) if i < self.attachment_count() => Some(i),
            _ => None,
        }
    }

    /// The attachment before the selected one is selected; with none selected,
    /// the last one.
    pub open spec fn previous_selected(self) -> ComposerModel {
        if self.attachment_count() == 0 {
            self.without_selection()
        } else {
            let next = match self.selection() {
                Some(i) => if i > 0 {
                    i - 1
                } else {
                    0
                },
                None => self.attachment_count() - 1,
            };
            ComposerModel { selected_attachment: Some(next as usize), cursor: 0, ..self }
        }
    }

    /// The attachment behind the selected one is selected; behind the last one
    /// the text is in focus again.
    pub open spec fn next_selected(self) -> ComposerModel {
        match self.selection() {
            Some(i) => if i + 1 < self.attachment_count() {
                ComposerModel { selected_attachment: Some((i + 1) as usize), ..self }
            } else {
                self.without_selection()
            },
            None => self,
        }
    }

    /// Where the cursor stands once the text from `start` to `end` is gone.
    pub open spec fn caret_without(self, start: int, end: int) -> int {
        let c = self.caret();
        if c <= start {
            c
        } else if c >= end {
            c - (end - start)
        } else {
            start
        }
    }

    /// The selected attachment is removed from the text. The attachment that
    /// takes its place is selected, or the last one, where any is left.
    pub open spec fn selection_removed(self) -> ComposerModel {
        match self.selection() {
            Some(i) => {
                let r = attachments_in(self.input)[i as int];
                let cut = self.edited(
                    r.start,
                    r.end,
                    Seq::empty(),
                    self.caret_without(r.start, r.end),
                );
                let left = cut.attachment_count();
                (ComposerModel {
                    selected_attachment: if left == 0 {
                        None
                    } else {
                        Some(lesser(i as int, left - 1) as usize)
                    },
                    ..cut
                }).with_menus()
            },
            None => self.without_selection(),
        }
    }
}

/// Adding an attachment keeps the text before and behind the cursor.
pub proof fn attaching_keeps_text(
    m: ComposerModel,
    kind: Seq<char>,
    path: Seq<char>,
    description: Option<Seq<char>>,
)
    requires
        m.cursor >= 0,
    ensures
        m.attached(kind, path, description).input == m.input.take(m.caret()) + m.set_off(
            attachment_text(kind, path, description),
        ) + m.input.skip(m.caret()),
{
    crate::tui::composer::insertion_keeps_text(
        m,
        m.set_off(attachment_text(kind, path, description)),
    );
}

impl ComposerState {
    /// Inserts an attachment at the cursor.
    pub fn insert_attachment(&mut self, kind: &str, path: &str, description: Option<&str>)
        ensures
            final(self)@ == old(self)@.attached(kind@, path@, opt_str(description)),
    {
        let reference = media_attachment_reference(kind, path, description);
        let c = self.clamped_cursor();
        let chars = to_chars(self.input.as_str());
        let mut text = String::new();
        if c > 0 && !char_is_whitespace(chars[c - 1]) {
            text.push('\n');
        }
        text.append(reference.as_str());
        if c == chars.len() || !char_is_whitespace(chars[c]) {
            text.push('\n');
        }
        proof { assert(text@ =~= self@.set_off(reference@)); }
        self.insert_str(text.as_str());
        self.paste_burst.clear_after_explicit_paste();
    }

    /// How many attachments the input refers to.
    pub fn count_attachments(&self) -> (res: usize)
        ensures
            res == self@.attachment_count(),
    {
        let refs = media_attachment_references(self.input.as_str());
        proof { assert(attachment_models(refs@).len() == refs@.len()); }
        refs.len()
    }

    /// The attachment that is selected, where it still exists.
    pub fn selected_attachment(&self) -> (res: Option<usize>)
        ensures
            res == self@.selection(),
    {
        let count = self.count_attachments();
        match self.selected_attachment_index {
            Some(i) => if i < count {
                Some(i)
            } else {
                None
            },
            None => None,
        }
    }

    /// Selects the attachment before. Returns whether there is any.
    pub fn select_previous_attachment(&mut self) -> (res: bool)
        ensures
            final(self)@ == old(self)@.previous_selected(),
            res == (old(self)@.attachment_count() > 0),
    {
        let count = self.count_attachments();
        if count == 0 {
            self.selected_attachment_index = None;
            return false;
        }
        let next: usize = match self.selected_attachment() {
            Some(i) => i.saturating_sub(1),
            None => count - 1,
        };
        self.selected_attachment_index = Some(next);
        self.cursor_position = 0;
        true
    }

    /// Selects the attachment behind. Returns whether one was selected.
    pub fn select_next_attachment(&mut self) -> (res: bool)
        ensures
            final(self)@ == old(self)@.next_selected(),
            res == (old(self)@.selection() is Some),
    {
        let count = self.count_attachments();
        match self.selected_attachment() {
            None => false,
            Some(i) => {
                if i < count - 1 {
                    self.selected_attachment_index = Some(i + 1);
                } else {
                    self.selected_attachment_index = None;
                }
                true
            },
        }
    }

    /// Removes the selected attachment and returns its path, where one is
    /// selected.
    pub fn remove_selected_attachment(&mut self) -> (res: Option<String>)
        ensures
            final(self)@ == old(self)@.selection_removed(),
            match old(self)@.selection() {
                Some(i) => res matches Some(path) && path@ == attachments_in(
                    old(self)@.input,
                )[i as int].path,
                None => res is None,
            },
    {
        let refs = media_attachment_references(self.input.as_str());
        let index = match self.selected_attachment() {
            Some(i) => i,
            None => {
                self.selected_attachment_index = None;
                return None;
            },
        };
        let ghost before = self@;
        proof {
            assert(attachment_models(refs@).len() == refs@.len());
            assert(attachment_models(refs@)[index as int] == refs@[index as int]@);
            lemma_attachments_bounded(self.input@, 0, index as int);
        }
        let start: usize = refs[index].start;
        let end: usize = refs[index].end;
        let path = refs[index].path.clone();
        let c = self.clamped_cursor();
        let cursor: usize = if c <= start {
            c
        } else if c >= end {
            c - (end - start)
        } else {
            start
        };
        self.cut(start, end, cursor);
        let left = self.count_attachments();
        self.selected_attachment_index = if left == 0 {
            None
        } else if index < left - 1 {
            Some(index)
        } else {
            Some(left - 1)
        };
        self.show_menus();
        Some(path)
    }
}

} // verus!
