//! Pasted text, attachments and the API key.

use vstd::prelude::*;

use crate::text::{
    char_count, char_is_control, decimal, decimal_text, first_chars, is_control, splice, spliced,
    to_chars,
};
use crate::tui::app::{App, OnboardingFlow};
use crate::tui::attachments::opt_str;
use crate::tui::composer::{ComposerModel, ComposerState, MAX_SUBMITTED_INPUT_CHARS};
use crate::tui::paste_burst::{FlushResult, PasteBurstModel};
use crate::tui::recall::{normalize_paste_text, without_returns};
use crate::tui::status::{StatusToastLevel, ToastModel};

verus! {

// ---------------------------------------------------------------------------
// Storing long inputs
// ---------------------------------------------------------------------------

/// What became of the attempt to store a long input in a file.
#[derive(Debug)]
pub enum PasteOutcome {
    /// It is stored under this path, relative to the workspace.
    Stored { rel_path: String },
    /// The directory could not be made.
    DirectoryFailed { error: String },
    /// The file could not be written.
    WriteFailed { error: String },
}

/// The mathematical form of a [`PasteOutcome`].
#[allow(inconsistent_fields)]
#[verifier::ext_equal]
pub enum OutcomeModel {
    Stored { rel_path: Seq<char> },
    DirectoryFailed { error: Seq<char> },
    WriteFailed { error: Seq<char> },
}

impl View for PasteOutcome {
    type V = OutcomeModel;

    open spec fn view(&self) -> OutcomeModel {
        match *self {
            PasteOutcome::Stored { rel_path } => OutcomeModel::Stored { rel_path: rel_path@ },
            PasteOutcome::DirectoryFailed { error } => OutcomeModel::DirectoryFailed {
                error: error@,
            },
            PasteOutcome::WriteFailed { error } => OutcomeModel::WriteFailed { error: error@ },
        }
    }
}

impl OutcomeModel {
    /// What stands in the composer in place of a long input: a mention of the
    /// file, or the beginning of the input.
    pub open spec fn replacement(self, input: Seq<char>) -> Seq<char> {
        match self {
            OutcomeModel::Stored { rel_path } => "@"@ + rel_path,
            _ => first_chars(input, MAX_SUBMITTED_INPUT_CHARS as int),
        }
    }

    /// What the user is told.
    pub open spec fn toast(self, now: u64) -> ToastModel {
        match self {
            OutcomeModel::Stored { .. } => ToastModel {
                text: "Large paste consolidated — sent as @mention"@,
                level: StatusToastLevel::Info,
                created_at: now,
                ttl_ms: Some(5_000),
            },
            OutcomeModel::DirectoryFailed { error } => ToastModel {
                text: "Failed to create paste directory: "@ + error,
                level: StatusToastLevel::Error,
                created_at: now,
                ttl_ms: Some(8_000),
            },
            OutcomeModel::WriteFailed { error } => ToastModel {
                text: "Failed to write paste file: "@ + error,
                level: StatusToastLevel::Error,
                created_at: now,
                ttl_ms: Some(8_000),
            },
        }
    }
}

impl ComposerModel {
    /// The input is too long to send.
    pub open spec fn is_oversized(self) -> bool {
        self.input.len() > MAX_SUBMITTED_INPUT_CHARS
    }

    /// A long input gives way to what stands for it. Others stay.
    pub open spec fn consolidated(self, outcome: OutcomeModel) -> ComposerModel {
        if self.is_oversized() {
            let text = outcome.replacement(self.input);
            ComposerModel { input: text, cursor: text.len() as int, ..self }
        } else {
            self
        }
    }

    /// What was held back of a paste is inserted.
    pub open spec fn with_held_text(self) -> ComposerModel {
        if self.paste_burst.holds_text() {
            (ComposerModel { paste_burst: self.paste_burst.handed_over(), ..self }).inserted(
                self.paste_burst.held_text(),
            )
        } else {
            self
        }
    }

    /// A text is pasted, behind what was held back.
    pub open spec fn pasted(self, text: Seq<char>) -> ComposerModel {
        ComposerModel {
            paste_burst: PasteBurstModel::idle(),
            ..self.with_held_text().inserted(without_returns(text))
        }
    }

    /// What a paste inserts before its own text.
    pub open spec fn held_before_paste(self) -> Seq<char> {
        if self.paste_burst.holds_text() {
            self.paste_burst.held_text()
        } else {
            Seq::empty()
        }
    }

    /// What is due of a paste is inserted.
    pub open spec fn flushed(self, now: u64) -> ComposerModel {
        let burst = self.paste_burst;
        let after = ComposerModel { paste_burst: burst.flushed(now), ..self };
        if !burst.is_due(now) {
            after
        } else if burst.is_buffering() {
            after.inserted(burst.buffer)
        } else {
            match burst.pending_first_char {
                Some(c) => after.typed(c),
                None => after,
            }
        }
    }

    /// Something is due of a paste.
    pub open spec fn has_due_text(self, now: u64) -> bool {
        self.paste_burst.is_due(now) && self.paste_burst.holds_text()
    }
}

/// Whatever became of the file, a failed attempt leaves no more in the composer
/// than may be sent.
pub proof fn failed_consolidation_fits(m: ComposerModel, outcome: OutcomeModel)
    requires
        !(outcome is Stored),
    ensures
        !m.consolidated(outcome).is_oversized(),
{
}

/// A paste inserts what was held back and its own text in one place.
proof fn lemma_pasted_input(m: ComposerModel, text: Seq<char>)
    requires
        m.cursor >= 0,
    ensures
        m.pasted(text).input == spliced(
            m.input,
            m.caret(),
            m.caret(),
            m.held_before_paste() + without_returns(text),
        ),
{
    let c = m.caret();
    let held = m.held_before_paste();
    let more = without_returns(text);
    let h = m.with_held_text();
    assert(m.input =~= spliced(m.input, c, c, Seq::empty()));
    assert(h.input == spliced(m.input, c, c, held));
    assert(h.caret() == c + held.len());
    assert(h.input.take(c + held.len()) =~= m.input.take(c) + held);
    assert(h.input.skip(c + held.len()) =~= m.input.skip(c));
    assert(h.input =~= spliced(h.input, h.caret(), h.caret(), Seq::empty()));
    assert(spliced(h.input, h.caret(), h.caret(), more) =~= spliced(m.input, c, c, held + more));
}

impl ComposerState {
    /// Whether the input is too long to send.
    pub fn input_is_oversized(&self) -> (res: bool)
        ensures
            res == self@.is_oversized(),
    {
        char_count(self.input.as_str()) > MAX_SUBMITTED_INPUT_CHARS
    }

    /// Puts what stands for a long input in its place.
    pub fn consolidate(&mut self, outcome: &PasteOutcome)
        requires
            old(self)@.is_oversized(),
        ensures
            final(self)@ == old(self)@.consolidated(outcome@),
    {
        let ghost before = self@;
        match outcome {
            PasteOutcome::Stored { rel_path } => {
                let mut text = String::new();
                text.append("@");
                text.append(rel_path.as_str());
                self.input = text;
            },
            _ => {
                let text = self.input.as_str().substring_char(
                    0,
                    MAX_SUBMITTED_INPUT_CHARS,
                ).to_owned();
                proof {
                    assert(text@ =~= first_chars(
                        before.input,
                        MAX_SUBMITTED_INPUT_CHARS as int,
                    ));
                }
                self.input = text;
            },
        }
        self.cursor_position = char_count(self.input.as_str());
        proof { assert(self.input@ =~= outcome@.replacement(before.input)); }
    }

    /// Inserts what was held back of a paste. Returns whether any text was
    /// inserted.
    pub fn insert_held_text(&mut self) -> (res: bool)
        ensures
            final(self)@ == old(self)@.with_held_text(),
            res == (old(self)@.paste_burst.holds_text() && old(self)@.paste_burst.held_text().len()
                > 0),
    {
        match self.paste_burst.flush_before_modified_input() {
            Some(text) => self.insert_str(text.as_str()),
            None => false,
        }
    }

    /// Pastes a text. Returns whether any text was inserted.
    pub fn paste(&mut self, text: &str) -> (res: bool)
        ensures
            final(self)@ == old(self)@.pasted(text@),
            res == ((old(self)@.paste_burst.holds_text() && old(self)@.paste_burst.held_text().len()
                > 0) || without_returns(text@).len() > 0),
    {
        let held = self.insert_held_text();
        let normalized = normalize_paste_text(text);
        let inserted = self.insert_str(normalized.as_str());
        self.paste_burst.clear_after_explicit_paste();
        held || inserted
    }

    /// Inserts what is due of a paste. Returns whether anything was due, and
    /// whether any text was inserted.
    pub fn flush_due(&mut self, now: u64) -> (res: (bool, bool))
        ensures
            final(self)@ == old(self)@.flushed(now),
            res.0 == old(self)@.has_due_text(now),
            res.1 == (old(self)@.has_due_text(now) && (old(self)@.paste_burst.is_buffering()
                ==> old(self)@.paste_burst.buffer.len() > 0)),
    {
        match self.paste_burst.flush_if_due(now) {
            FlushResult::Paste(text) => {
                let inserted = self.insert_str(text.as_str());
                (true, inserted)
            },
            FlushResult::Typed(c) => {
                self.insert_char(c);
                (true, true)
            },
            FlushResult::Nothing => (false, false),
        }
    }
}

/// What the user is told of an attempt to store a long input.
fn outcome_toast(outcome: &PasteOutcome) -> (res: (String, StatusToastLevel, u64))
    ensures
        forall|now: u64|
            #[trigger] outcome@.toast(now) == (ToastModel {
                text: res.0@,
                level: res.1,
                created_at: now,
                ttl_ms: Some(res.2),
            }),
{
    match outcome {
        PasteOutcome::Stored { .. } => (
            "Large paste consolidated — sent as @mention".to_owned(),
            StatusToastLevel::Info,
            5_000,
        ),
        PasteOutcome::DirectoryFailed { error } => {
            let mut text = String::new();
            text.append("Failed to create paste directory: ");
            text.append(error.as_str());
            proof { assert(text@ =~= "Failed to create paste directory: "@ + error@); }
            (text, StatusToastLevel::Error, 8_000)
        },
        PasteOutcome::WriteFailed { error } => {
            let mut text = String::new();
            text.append("Failed to write paste file: ");
            text.append(error.as_str());
            proof { assert(text@ =~= "Failed to write paste file: "@ + error@); }
            (text, StatusToastLevel::Error, 8_000)
        },
    }
}

impl App {
    /// Puts what stands for a long input in its place, and tells the user.
    /// Other inputs stay as they are.
    pub fn consolidate_large_input_if_oversized(&mut self, outcome: &PasteOutcome, now: u64)
        ensures
            final(self).composer@ == old(self).composer@.consolidated(outcome@),
            old(self).composer@.is_oversized() ==> final(self).status@ == old(
                self,
            ).status@.toasted(outcome@.toast(now)) && *final(self) == (App {
                composer: final(self).composer,
                status: final(self).status,
                needs_redraw: true,
                ..*old(self)
            }),
            !old(self).composer@.is_oversized() ==> *final(self) == *old(self),
    {
        if self.composer.input_is_oversized() {
            self.composer.consolidate(outcome);
            let (text, level, ttl_ms) = outcome_toast(outcome);
            self.push_status_toast(text, level, Some(ttl_ms), now);
        }
    }

    /// What the input will be once a text is pasted.
    pub fn input_after_paste(&self, text: &str) -> (res: String)
        ensures
            res@ == self.composer@.pasted(text@).input,
    {
        let cursor = self.composer.clamped_cursor();
        let mut inserted = String::new();
        if self.composer.paste_burst.is_active() {
            inserted.append(self.composer.paste_burst.buffer.as_str());
            if let Some(ch) = self.composer.paste_burst.pending_first_char {
                inserted.push(ch);
            }
        }
        let normalized = normalize_paste_text(text);
        inserted.append(normalized.as_str());
        proof {
            assert(inserted@ =~= self.composer@.held_before_paste() + without_returns(text@));
            lemma_pasted_input(self.composer@, text@);
        }
        splice(self.composer.input.as_str(), cursor, cursor, inserted.as_str())
    }

    /// The input that has to be stored before a text is pasted: what it will be
    /// then, where that is too long.
    pub fn paste_to_store(&self, text: &str) -> (res: Option<String>)
        ensures
            match res {
                Some(input) => self.composer@.pasted(text@).is_oversized() && input@
                    == self.composer@.pasted(text@).input,
                None => !self.composer@.pasted(text@).is_oversized(),
            },
    {
        let input = self.input_after_paste(text);
        if char_count(input.as_str()) > MAX_SUBMITTED_INPUT_CHARS {
            Some(input)
        } else {
            None
        }
    }

    /// Pastes a text. An input that is then too long gives way at once to what
    /// stands for it, so that the user sees what will be sent. `stored` is what
    /// became of storing [`Self::paste_to_store`], where that gives anything.
    pub fn insert_paste_text(&mut self, text: &str, stored: &PasteOutcome, now: u64)
        ensures
            final(self).composer@ == old(self).composer@.pasted(text@).consolidated(stored@),
            old(self).composer@.pasted(text@).is_oversized() ==> final(self).status@ == old(
                self,
            ).status@.toasted(stored@.toast(now)) && *final(self) == (App {
                composer: final(self).composer,
                status: final(self).status,
                needs_redraw: true,
                ..*old(self)
            }),
            !old(self).composer@.pasted(text@).is_oversized() ==> *final(self) == old(
                self,
            ).with_composer(
                final(self).composer,
                (old(self).composer@.paste_burst.holds_text()
                    && old(self).composer@.paste_burst.held_text().len() > 0) || without_returns(
                    text@,
                ).len() > 0,
            ),
    {
        let inserted = self.composer.paste(text);
        self.redraw_if(inserted);
        self.consolidate_large_input_if_oversized(stored, now);
    }

    /// Inserts an attachment at the cursor.
    pub fn insert_media_attachment(&mut self, kind: &str, path: &str, description: Option<&str>)
        ensures
            final(self).composer@ == old(self).composer@.attached(
                kind@,
                path@,
                opt_str(description),
            ),
            *final(self) == old(self).with_composer(final(self).composer, true),
    {
        self.composer.insert_attachment(kind, path, description);
        self.needs_redraw = true;
    }

    /// Inserts what is due of a paste. Returns whether anything was due.
    pub fn flush_paste_burst_if_due(&mut self, now: u64) -> (res: bool)
        ensures
            final(self).composer@ == old(self).composer@.flushed(now),
            res == old(self).composer@.has_due_text(now),
            *final(self) == old(self).with_composer(
                final(self).composer,
                res && (old(self).composer@.paste_burst.is_buffering()
                    ==> old(self).composer@.paste_burst.buffer.len() > 0),
            ),
    {
        let (due, inserted) = self.composer.flush_due(now);
        self.redraw_if(inserted);
        due
    }

    /// Inserts what is due of a paste, where pastes are told from typing.
    /// Returns whether anything was due.
    pub fn flush_paste_burst_if_enabled(&mut self, now: u64) -> (res: bool)
        ensures
            res == (old(self).preferences.use_paste_burst_detection
                && old(self).composer@.has_due_text(now)),
            old(self).preferences.use_paste_burst_detection ==> final(self).composer@ == old(
                self,
            ).composer@.flushed(now) && *final(self) == old(self).with_composer(
                final(self).composer,
                res && (old(self).composer@.paste_burst.is_buffering()
                    ==> old(self).composer@.paste_burst.buffer.len() > 0),
            ),
            !old(self).preferences.use_paste_burst_detection ==> *final(self) == *old(self),
    {
        if self.preferences.use_paste_burst_detection {
            self.flush_paste_burst_if_due(now)
        } else {
            false
        }
    }

    /// How long until something of a paste is due, where pastes are told from
    /// typing.
    pub fn paste_burst_next_flush_delay_if_enabled(&self, now: u64) -> (res: Option<u64>)
        ensures
            self.preferences.use_paste_burst_detection ==> res
                == self.composer.paste_burst@.flush_delay(now),
            !self.preferences.use_paste_burst_detection ==> res is None,
    {
        if self.preferences.use_paste_burst_detection {
            self.composer.paste_burst.next_flush_delay(now)
        } else {
            None
        }
    }

    /// Hands over what was held back of a paste, where pastes are told from
    /// typing.
    pub fn flush_paste_burst_before_modified_input_if_enabled(&mut self) -> (res: Option<String>)
        ensures
            ({
                let m = old(self).composer@;
                if old(self).preferences.use_paste_burst_detection && m.paste_burst.holds_text() {
                    &&& res matches Some(text) && text@ == m.paste_burst.held_text()
                    &&& final(self).composer@ == (ComposerModel {
                        paste_burst: m.paste_burst.handed_over(),
                        ..m
                    })
                    &&& *final(self) == (App { composer: final(self).composer, ..*old(self) })
                } else {
                    res is None && *final(self) == *old(self)
                }
            }),
    {
        if self.preferences.use_paste_burst_detection {
            self.composer.paste_burst.flush_before_modified_input()
        } else {
            None
        }
    }

    /// Hides the menu of commands.
    pub fn close_slash_menu(&mut self)
        ensures
            final(self).composer@ == (ComposerModel {
                slash_menu_hidden: true,
                ..old(self).composer@
            }),
            *final(self) == old(self).with_composer(final(self).composer, true),
    {
        self.composer.slash_menu_hidden = true;
        self.needs_redraw = true;
    }
}

// ---------------------------------------------------------------------------
// Attachments in the composer
// ---------------------------------------------------------------------------

/// What the status line says of a selected attachment.
pub const ATTACHMENT_SELECTED: &'static str = "Attachment selected - Backspace/Delete removes it";

/// What the status line says when the text is in focus again.
pub const COMPOSER_FOCUSED: &'static str = "Composer focused";

impl App {
    /// How many attachments the input refers to.
    pub fn composer_attachment_count(&self) -> (res: usize)
        ensures
            res == self.composer@.attachment_count(),
    {
        self.composer.count_attachments()
    }

    /// The attachment that is selected, where it still exists.
    pub fn selected_composer_attachment_index(&self) -> (res: Option<usize>)
        ensures
            res == self.composer@.selection(),
    {
        self.composer.selected_attachment()
    }

    /// Selects the attachment before. Returns whether there is any.
    pub fn select_previous_composer_attachment(&mut self) -> (res: bool)
        ensures
            final(self).composer@ == old(self).composer@.previous_selected(),
            res == (old(self).composer@.attachment_count() > 0),
            res ==> final(self).status@ == old(self).status@.saying(ATTACHMENT_SELECTED@)
                && *final(self) == (App {
                composer: final(self).composer,
                status: final(self).status,
                needs_redraw: true,
                ..*old(self)
            }),
            !res ==> *final(self) == (App { composer: final(self).composer, ..*old(self) }),
    {
        if self.composer.select_previous_attachment() {
            self.status.say(ATTACHMENT_SELECTED.to_owned());
            self.needs_redraw = true;
            true
        } else {
            false
        }
    }

    /// Selects the attachment behind, or returns to the text. Returns whether
    /// an attachment was selected.
    pub fn select_next_composer_attachment(&mut self) -> (res: bool)
        ensures
            final(self).composer@ == old(self).composer@.next_selected(),
            res == (old(self).composer@.selection() is Some),
            res ==> final(self).status@ == old(self).status@.saying(
                if final(self).composer@.selected_attachment is Some {
                    ATTACHMENT_SELECTED@
                } else {
                    COMPOSER_FOCUSED@
                },
            ) && *final(self) == (App {
                composer: final(self).composer,
                status: final(self).status,
                needs_redraw: true,
                ..*old(self)
            }),
            !res ==> *final(self) == (App { composer: final(self).composer, ..*old(self) }),
    {
        if self.composer.select_next_attachment() {
            let text = if self.composer.selected_attachment_index.is_some() {
                ATTACHMENT_SELECTED
            } else {
                COMPOSER_FOCUSED
            };
            self.status.say(text.to_owned());
            self.needs_redraw = true;
            true
        } else {
            false
        }
    }

    /// Returns from the attachments to the text. Returns whether one was
    /// selected.
    pub fn clear_composer_attachment_selection(&mut self) -> (res: bool)
        ensures
            final(self).composer@ == old(self).composer@.without_selection(),
            res == (old(self).composer@.selected_attachment is Some),
            res ==> final(self).status@ == old(self).status@.saying(COMPOSER_FOCUSED@)
                && *final(self) == (App {
                composer: final(self).composer,
                status: final(self).status,
                needs_redraw: true,
                ..*old(self)
            }),
            !res ==> *final(self) == (App { composer: final(self).composer, ..*old(self) }),
    {
        if self.composer.selected_attachment_index.is_some() {
            self.composer.selected_attachment_index = None;
            self.status.say(COMPOSER_FOCUSED.to_owned());
            self.needs_redraw = true;
            true
        } else {
            false
        }
    }

    /// Removes the selected attachment. Returns whether one was selected.
    pub fn remove_selected_composer_attachment(&mut self) -> (res: bool)
        ensures
            final(self).composer@ == old(self).composer@.selection_removed(),
            match old(self).composer@.selection() {
                Some(i) => res && final(self).status@ == old(self).status@.saying(
                    "Removed attachment: "@ + crate::tui::attachments::attachments_in(
                        old(self).composer@.input,
                    )[i as int].path,
                ) && *final(self) == (App {
                    composer: final(self).composer,
                    status: final(self).status,
                    needs_redraw: true,
                    ..*old(self)
                }),
                None => !res && *final(self) == (App {
                    composer: final(self).composer,
                    ..*old(self)
                }),
            },
    {
        match self.composer.remove_selected_attachment() {
            Some(path) => {
                let mut text = String::new();
                text.append("Removed attachment: ");
                text.append(path.as_str());
                proof { assert(text@ =~= "Removed attachment: "@ + path@); }
                self.status.say(text);
                self.needs_redraw = true;
                true
            },
            None => false,
        }
    }
}

// ---------------------------------------------------------------------------
// The clipboard
// ---------------------------------------------------------------------------

/// An image taken from the clipboard and stored in a file.
#[derive(Debug)]
pub struct PastedImage {
    pub path: String,
    pub width: u32,
    pub height: u32,
    pub byte_len: usize,
}

impl PastedImage {
    /// The size of an image in pixels.
    pub open spec fn pixels(self) -> Seq<char> {
        decimal(self.width as nat) + "x"@ + decimal(self.height as nat) + " PNG"@
    }

    /// The size of an image in kilobytes, rounded up.
    pub open spec fn kilobytes(self) -> Seq<char> {
        decimal(((self.byte_len + 1023) / 1024) as nat) + "KB"@
    }

    /// An image in words.
    pub open spec fn description(self) -> Seq<char> {
        self.pixels() + " ("@ + self.kilobytes() + ")"@
    }

    /// The size of an image in pixels.
    pub fn short_label(&self) -> (res: String)
        ensures
            res@ == self.pixels(),
    {
        let mut out = decimal_text(self.width as u64);
        out.append("x");
        let height = decimal_text(self.height as u64);
        out.append(height.as_str());
        out.append(" PNG");
        out
    }

    /// The size of an image in kilobytes, rounded up.
    pub fn size_label(&self) -> (res: String)
        ensures
            res@ == self.kilobytes(),
    {
        let whole: usize = self.byte_len / 1024;
        let rounded: u64 = if self.byte_len % 1024 == 0 {
            whole as u64
        } else {
            (whole as u64) + 1
        };
        let mut out = decimal_text(rounded);
        out.append("KB");
        out
    }
}

/// What the clipboard holds.
#[derive(Debug)]
pub enum ClipboardContent {
    Text(String),
    Image(PastedImage),
}

impl App {
    /// The application once it was handed what the clipboard holds: text is
    /// pasted, an image is attached.
    pub open spec fn has_clipboard_content(
        self,
        before: App,
        content: ClipboardContent,
        stored: OutcomeModel,
        now: u64,
    ) -> bool {
        match content {
            ClipboardContent::Text(text) => {
                let m = before.composer@.pasted(text@);
                &&& self.composer@ == m.consolidated(stored)
                &&& m.is_oversized() ==> self.status@ == before.status@.toasted(stored.toast(now))
                    && self == (App {
                    composer: self.composer,
                    status: self.status,
                    needs_redraw: true,
                    ..before
                })
                &&& !m.is_oversized() ==> self == before.with_composer(
                    self.composer,
                    (before.composer@.paste_burst.holds_text()
                        && before.composer@.paste_burst.held_text().len() > 0) || without_returns(
                        text@,
                    ).len() > 0,
                )
            },
            ClipboardContent::Image(image) => {
                &&& self.composer@ == before.composer@.attached(
                    "image"@,
                    image.path@,
                    Some(image.description()),
                )
                &&& self.status@ == before.status@.saying("Attached image: "@ + image.description())
                &&& self == (App {
                    composer: self.composer,
                    status: self.status,
                    needs_redraw: true,
                    ..before
                })
            },
        }
    }

    /// Pastes what the clipboard holds. See [`Self::insert_paste_text`] for
    /// `stored`.
    pub fn apply_clipboard_content(
        &mut self,
        content: ClipboardContent,
        stored: &PasteOutcome,
        now: u64,
    )
        ensures
            final(self).has_clipboard_content(*old(self), content, stored@, now),
    {
        match content {
            ClipboardContent::Text(text) => {
                self.insert_paste_text(text.as_str(), stored, now);
            },
            ClipboardContent::Image(image) => {
                let mut description = image.short_label();
                description.append(" (");
                let size = image.size_label();
                description.append(size.as_str());
                description.append(")");
                proof { assert(description@ =~= image.description()); }
                self.insert_media_attachment(
                    "image",
                    image.path.as_str(),
                    Some(description.as_str()),
                );
                let mut text = String::new();
                text.append("Attached image: ");
                text.append(description.as_str());
                proof { assert(text@ =~= "Attached image: "@ + image.description()); }
                self.status.say(text);
            },
        }
    }

    /// The input that has to be stored before the clipboard's content is pasted.
    pub fn clipboard_to_store(&self, content: &Option<ClipboardContent>) -> (res: Option<String>)
        ensures
            match (res, content) {
                (Some(input), Some(ClipboardContent::Text(text))) => self.composer@.pasted(
                    text@,
                ).is_oversized() && input@ == self.composer@.pasted(text@).input,
                (None, Some(ClipboardContent::Text(text))) => !self.composer@.pasted(
                    text@,
                ).is_oversized(),
                _ => res is None,
            },
    {
        match content {
            Some(ClipboardContent::Text(text)) => self.paste_to_store(text.as_str()),
            _ => None,
        }
    }

    /// Pastes what the clipboard holds, where it could be read.
    pub fn paste_from_clipboard(
        &mut self,
        content: Option<ClipboardContent>,
        stored: &PasteOutcome,
        now: u64,
    )
        ensures
            match content {
                Some(content) => final(self).has_clipboard_content(
                    *old(self),
                    content,
                    stored@,
                    now,
                ),
                None => *final(self) == *old(self),
            },
    {
        if let Some(content) = content {
            self.apply_clipboard_content(content, stored, now);
        }
    }
}

// ---------------------------------------------------------------------------
// The API key
// ---------------------------------------------------------------------------

/// `s` without its control characters.
pub open spec fn without_controls(s: Seq<char>) -> Seq<char>
    decreases s.len(),
{
    if s.len() == 0 {
        Seq::empty()
    } else if is_control(s.last()) {
        without_controls(s.drop_last())
    } else {
        without_controls(s.drop_last()).push(s.last())
    }
}

/// Pasted text as it may stand in an API key.
pub fn sanitize_api_key_text(text: &str) -> (res: String)
    ensures
        res@ == without_controls(text@),
{
    let chars = to_chars(text);
    let mut out = String::new();
    let mut i: usize = 0;
    proof {
        assert(text@.take(0) =~= Seq::empty());
        assert(out@ =~= Seq::empty());
    }
    while i < chars.len()
        invariant
            i <= chars@.len(),
            chars@ == text@,
            out@ == without_controls(text@.take(i as int)),
        decreases chars@.len() - i,
    {
        proof { assert(text@.take(i + 1).drop_last() =~= text@.take(i as int)); }
        if !char_is_control(chars[i]) {
            out.push(chars[i]);
        }
        i += 1;
    }
    proof { assert(text@.take(i as int) =~= text@); }
    out
}

impl OnboardingFlow {
    /// Where the cursor stands in the key.
    pub open spec fn key_caret(self) -> int {
        crate::tui::composer::lesser(self.api_key_cursor as int, self.api_key_input@.len() as int)
    }

    fn put_key_text(&mut self, text: &str)
        ensures
            final(self).api_key_input@ == spliced(
                old(self).api_key_input@,
                old(self).key_caret(),
                old(self).key_caret(),
                text@,
            ),
            final(self).api_key_cursor == old(self).key_caret() + text@.len(),
            *final(self) == (OnboardingFlow {
                api_key_input: final(self).api_key_input,
                api_key_cursor: final(self).api_key_cursor,
                ..*old(self)
            }),
    {
        let total = char_count(self.api_key_input.as_str());
        let c: usize = if self.api_key_cursor < total {
            self.api_key_cursor
        } else {
            total
        };
        let rest: usize = total - c;
        self.api_key_input = splice(self.api_key_input.as_str(), c, c, text);
        self.api_key_cursor = char_count(self.api_key_input.as_str()) - rest;
    }
}

impl App {
    /// The application with this dialogue.
    pub open spec fn with_onboarding(self, onboarding: OnboardingFlow) -> App {
        App { onboarding, ..self }
    }

    /// Types a character of the API key.
    pub fn insert_api_key_char(&mut self, c: char)
        ensures
            final(self).onboarding.api_key_input@ == spliced(
                old(self).onboarding.api_key_input@,
                old(self).onboarding.key_caret(),
                old(self).onboarding.key_caret(),
                seq![c],
            ),
            final(self).onboarding.api_key_cursor == old(self).onboarding.key_caret() + 1,
            *final(self) == old(self).with_onboarding(
                OnboardingFlow {
                    api_key_input: final(self).onboarding.api_key_input,
                    api_key_cursor: final(self).onboarding.api_key_cursor,
                    ..old(self).onboarding
                },
            ),
    {
        let mut text = String::new();
        text.push(c);
        proof { assert(text@ =~= seq![c]); }
        self.onboarding.put_key_text(text.as_str());
    }

    /// Pastes text into the API key.
    pub fn insert_api_key_str(&mut self, text: &str)
        ensures
            without_controls(text@).len() == 0 ==> *final(self) == *old(self),
            without_controls(text@).len() > 0 ==> final(self).onboarding.api_key_input@ == spliced(
                old(self).onboarding.api_key_input@,
                old(self).onboarding.key_caret(),
                old(self).onboarding.key_caret(),
                without_controls(text@),
            ) && final(self).onboarding.api_key_cursor == old(self).onboarding.key_caret()
                + without_controls(text@).len(),
            *final(self) == old(self).with_onboarding(
                OnboardingFlow {
                    api_key_input: final(self).onboarding.api_key_input,
                    api_key_cursor: final(self).onboarding.api_key_cursor,
                    ..old(self).onboarding
                },
            ),
    {
        let sanitized = sanitize_api_key_text(text);
        if sanitized.as_str().is_empty() {
            return;
        }
        self.onboarding.put_key_text(sanitized.as_str());
    }

    /// Deletes the character before the cursor of the API key.
    pub fn delete_api_key_char(&mut self)
        ensures
            ({
                let before = old(self).onboarding;
                let target = before.api_key_cursor - 1;
                if 0 <= target < before.api_key_input@.len() {
                    &&& final(self).onboarding.api_key_input@ == spliced(
                        before.api_key_input@,
                        target,
                        target + 1,
                        Seq::empty(),
                    )
                    &&& final(self).onboarding.api_key_cursor == target
                } else {
                    *final(self) == *old(self)
                }
            }),
            *final(self) == old(self).with_onboarding(
                OnboardingFlow {
                    api_key_input: final(self).onboarding.api_key_input,
                    api_key_cursor: final(self).onboarding.api_key_cursor,
                    ..old(self).onboarding
                },
            ),
    {
        if self.onboarding.api_key_cursor == 0 {
            return;
        }
        let target: usize = self.onboarding.api_key_cursor - 1;
        if target < char_count(self.onboarding.api_key_input.as_str()) {
            self.onboarding.api_key_input = splice(
                self.onboarding.api_key_input.as_str(),
                target,
                target + 1,
                "",
            );
            self.onboarding.api_key_cursor = target;
            proof {
                reveal_strlit("");
                assert(""@ =~= Seq::<char>::empty());
            }
        }
    }

    /// Pastes the clipboard's text into the API key, where it holds text.
    pub fn paste_api_key_from_clipboard(&mut self, content: Option<ClipboardContent>)
        ensures
            ({
                let before = old(self).onboarding;
                let text = match content {
                    Some(ClipboardContent::Text(text)) => without_controls(text@),
                    _ => Seq::empty(),
                };
                if text.len() > 0 {
                    &&& final(self).onboarding.api_key_input@ == spliced(
                        before.api_key_input@,
                        before.key_caret(),
                        before.key_caret(),
                        text,
                    )
                    &&& final(self).onboarding.api_key_cursor == before.key_caret() + text.len()
                } else {
                    *final(self) == *old(self)
                }
            }),
            *final(self) == old(self).with_onboarding(
                OnboardingFlow {
                    api_key_input: final(self).onboarding.api_key_input,
                    api_key_cursor: final(self).onboarding.api_key_cursor,
                    ..old(self).onboarding
                },
            ),
    {
        if let Some(ClipboardContent::Text(text)) = content {
            self.insert_api_key_str(text.as_str());
        }
    }
}

} // verus!
