//! Submitting the input, and messages that wait for the turn in flight.

use std::collections::VecDeque;

use vstd::prelude::*;

use crate::text::{char_count, has_prefix, is_blank, starts_with, trimmed};
use crate::tui::app::pasting::{OutcomeModel, PasteOutcome};
use crate::tui::app::{App, QueueState};
use crate::tui::cells::QueuedMessage;
use crate::tui::composer::{ComposerModel, ComposerState};
use crate::tui::hooks::{effect_models, Effect, EffectModel};
use crate::tui::paste_burst::PasteBurstModel;
use crate::tui::settings::SubmitDisposition;

verus! {

impl App {
    /// The application once its input was submitted. A blank input is not. One
    /// that is too long gives way first to what stands for it. Inputs that are
    /// no commands are recorded and added to the history across sessions.
    pub open spec fn has_submitted(
        self,
        before: App,
        submitted: Option<String>,
        stored: OutcomeModel,
        now: u64,
    ) -> bool {
        let m = before.composer@;
        let sent = m.consolidated(stored);
        if trimmed(m.input).len() == 0 {
            &&& submitted is None
            &&& self.composer@ == (ComposerModel { paste_burst: PasteBurstModel::idle(), ..m })
            &&& self == (App { composer: self.composer, ..before })
        } else {
            &&& submitted matches Some(text) && text@ == sent.input
            &&& self.composer@ == sent.submitted(before.preferences.max_input_history as nat)
            &&& self.status@ == (if m.is_oversized() {
                before.status@.toasted(stored.toast(now))
            } else {
                before.status@
            })
            &&& effect_models(self.effects@) == (if has_prefix(sent.input, "/"@) {
                effect_models(before.effects@)
            } else {
                effect_models(before.effects@).push(
                    EffectModel::AppendInputHistory { input: sent.input },
                )
            })
            &&& self == (App {
                composer: self.composer,
                status: self.status,
                effects: self.effects,
                needs_redraw: true,
                ..before
            })
        }
    }

    /// The input that has to be stored before it is submitted: one that is too
    /// long and not blank.
    pub fn submission_to_store(&self) -> (res: Option<String>)
        ensures
            match res {
                Some(input) => self.composer@.is_oversized() && trimmed(self.composer@.input).len()
                    > 0 && input@ == self.composer@.input,
                None => !self.composer@.is_oversized() || trimmed(self.composer@.input).len() == 0,
            },
    {
        if !is_blank(self.composer.input.as_str()) && self.composer.input_is_oversized() {
            Some(self.composer.input.clone())
        } else {
            None
        }
    }

    /// Submits the input and hands it over, unless it is blank. `stored` is
    /// what became of storing [`Self::submission_to_store`], where that gives
    /// anything.
    pub fn submit_input(&mut self, stored: &PasteOutcome, now: u64) -> (res: Option<String>)
        ensures
            final(self).has_submitted(*old(self), res, stored@, now),
    {
        if is_blank(self.composer.input.as_str()) {
            self.composer.paste_burst.clear_after_explicit_paste();
            return None;
        }
        self.consolidate_large_input_if_oversized(stored, now);
        let limit: usize = self.preferences.max_input_history;
        let input = self.composer.submit(limit);
        if !starts_with(input.as_str(), "/") {
            let effect = Effect::AppendInputHistory { input: input.clone() };
            let ghost before = self.effects@;
            self.effects.push(effect);
            proof {
                assert(effect_models(self.effects@) =~= effect_models(before).push(effect@));
            }
        }
        self.needs_redraw = true;
        Some(input)
    }

    /// The Enter key belongs to a paste rather than being a submit.
    pub open spec fn absorbs_enter(self, now: u64) -> bool {
        self.preferences.use_paste_burst_detection && self.composer@.paste_burst.absorbs_enter(now)
    }

    /// The composer once an Enter key was absorbed: a line break is added to
    /// what is held back, or to the input, and the window stays open.
    pub open spec fn enter_absorbed(m: ComposerModel, now: u64) -> ComposerModel {
        if m.paste_burst.holds_text() {
            ComposerModel {
                paste_burst: (PasteBurstModel {
                    buffer: m.paste_burst.buffer.push('\n'),
                    ..m.paste_burst
                }).with_window(now),
                ..m
            }
        } else {
            let typed = m.typed('\n');
            ComposerModel { paste_burst: typed.paste_burst.with_window(now), ..typed }
        }
    }

    /// The input that has to be stored before the Enter key is handled.
    pub fn enter_to_store(&self, now: u64) -> (res: Option<String>)
        ensures
            match res {
                Some(input) => !self.absorbs_enter(now) && self.composer@.is_oversized() && trimmed(
                    self.composer@.input,
                ).len() > 0 && input@ == self.composer@.input,
                None => self.absorbs_enter(now) || !self.composer@.is_oversized() || trimmed(
                    self.composer@.input,
                ).len() == 0,
            },
    {
        if self.preferences.use_paste_burst_detection
            && self.composer.paste_burst.newline_should_insert_instead_of_submit(now) {
            None
        } else {
            self.submission_to_store()
        }
    }

    /// Handles the Enter key: submits the input, or takes the key as a line
    /// break of a paste. Returns the input that is submitted. `stored` is what
    /// became of storing [`Self::enter_to_store`], where that gives anything.
    pub fn handle_composer_enter(&mut self, stored: &PasteOutcome, now: u64) -> (res: Option<String>)
        ensures
            old(self).absorbs_enter(now) ==> res is None && final(self).composer@
                == App::enter_absorbed(old(self).composer@, now) && *final(self) == old(
                self,
            ).with_composer(final(self).composer, true),
            !old(self).absorbs_enter(now) ==> final(self).has_submitted(
                *old(self),
                res,
                stored@,
                now,
            ),
    {
        if self.preferences.use_paste_burst_detection {
            if self.composer.paste_burst.newline_should_insert_instead_of_submit(now) {
                if !self.composer.paste_burst.append_newline_if_active(now) {
                    self.composer.insert_char('\n');
                    self.composer.paste_burst.extend_window(now);
                }
                self.needs_redraw = true;
                return None;
            }
        }
        self.submit_input(stored, now)
    }
}

/// A blank input is never submitted, and what is submitted leaves the composer
/// empty.
pub proof fn submitting_empties_composer(
    before: App,
    after: App,
    submitted: Option<String>,
    stored: OutcomeModel,
    now: u64,
)
    requires
        after.has_submitted(before, submitted, stored, now),
    ensures
        submitted is Some <==> trimmed(before.composer@.input).len() > 0,
        submitted is Some ==> after.composer@.input.len() == 0 && after.composer@.cursor == 0,
{
}

// ---------------------------------------------------------------------------
// Waiting messages
// ---------------------------------------------------------------------------

impl QueueState {
    /// Makes the latest waiting message the one being edited, and hands over
    /// its text.
    fn take_last_into_draft(&mut self) -> (res: Option<String>)
        ensures
            old(self).queued_messages@.len() == 0 ==> res is None && final(self).queued_messages@
                == old(self).queued_messages@ && *final(self) == (QueueState {
                queued_messages: final(self).queued_messages,
                ..*old(self)
            }),
            old(self).queued_messages@.len() > 0 ==> (res matches Some(text) && text@
                == old(self).queued_messages@.last().display@) && final(self).queued_messages@
                == old(self).queued_messages@.drop_last() && *final(self) == (QueueState {
                queued_messages: final(self).queued_messages,
                queued_draft: Some(old(self).queued_messages@.last()),
                ..*old(self)
            }),
    {
        match self.queued_messages.pop_back() {
            None => None,
            Some(message) => {
                proof { assert(self.queued_messages@ =~= old(self).queued_messages@.drop_last()); }
                let text = message.display.clone();
                self.queued_draft = Some(message);
                Some(text)
            },
        }
    }
}

impl ComposerState {
    /// Puts a text into the composer, with the cursor behind it.
    fn load(&mut self, text: String)
        ensures
            final(self)@ == (ComposerModel {
                input: text@,
                cursor: text@.len() as int,
                selected_attachment: None,
                ..old(self)@
            }),
    {
        self.cursor_position = char_count(text.as_str());
        self.input = text;
        self.selected_attachment_index = None;
    }
}

impl App {
    /// Adds a message that waits.
    pub fn queue_message(&mut self, message: QueuedMessage)
        ensures
            final(self).queue.queued_messages@ == old(self).queue.queued_messages@.push(message),
            *final(self) == (App {
                queue: QueueState {
                    queued_messages: final(self).queue.queued_messages,
                    ..old(self).queue
                },
                ..*old(self)
            }),
    {
        self.queue.queued_messages.push_back(message);
    }

    /// Takes the message that has waited longest.
    pub fn pop_queued_message(&mut self) -> (res: Option<QueuedMessage>)
        ensures
            old(self).queue.queued_messages@.len() > 0 ==> res == Some(
                old(self).queue.queued_messages@[0],
            ) && final(self).queue.queued_messages@ == old(self).queue.queued_messages@.skip(1),
            old(self).queue.queued_messages@.len() == 0 ==> res is None
                && final(self).queue.queued_messages@.len() == 0,
            *final(self) == (App {
                queue: QueueState {
                    queued_messages: final(self).queue.queued_messages,
                    ..old(self).queue
                },
                ..*old(self)
            }),
    {
        let res = self.queue.queued_messages.pop_front();
        proof {
            if old(self).queue.queued_messages@.len() > 0 {
                assert(self.queue.queued_messages@ =~= old(self).queue.queued_messages@.skip(1));
            }
        }
        res
    }

    /// Takes the waiting message at a position, where there is one.
    pub fn remove_queued_message(&mut self, index: usize) -> (res: Option<QueuedMessage>)
        ensures
            index < old(self).queue.queued_messages@.len() ==> res == Some(
                old(self).queue.queued_messages@[index as int],
            ) && final(self).queue.queued_messages@ == old(self).queue.queued_messages@.remove(
                index as int,
            ),
            index >= old(self).queue.queued_messages@.len() ==> res is None
                && final(self).queue.queued_messages@ == old(self).queue.queued_messages@,
            *final(self) == (App {
                queue: QueueState {
                    queued_messages: final(self).queue.queued_messages,
                    ..old(self).queue
                },
                ..*old(self)
            }),
    {
        self.queue.queued_messages.remove(index)
    }

    /// How many messages wait.
    pub fn queued_message_count(&self) -> (res: usize)
        ensures
            res == self.queue.queued_messages@.len(),
    {
        self.queue.queued_messages.len()
    }

    /// The latest waiting message can be taken back for editing: nothing is
    /// typed, nothing is being edited, and there is one.
    pub open spec fn can_edit_queued(self) -> bool {
        &&& self.composer@.input.len() == 0
        &&& self.queue.queued_draft is None
        &&& self.queue.queued_messages@.len() > 0
    }

    /// Takes the latest waiting message back into the composer for editing.
    /// Returns whether it could be.
    pub fn pop_last_queued_into_draft(&mut self) -> (res: bool)
        ensures
            res == old(self).can_edit_queued(),
            !res ==> final(self).queue.queued_messages@ == old(self).queue.queued_messages@
                && *final(self) == (App {
                queue: QueueState {
                    queued_messages: final(self).queue.queued_messages,
                    ..old(self).queue
                },
                ..*old(self)
            }),
            res ==> ({
                let message = old(self).queue.queued_messages@.last();
                &&& final(self).composer@ == (ComposerModel {
                    input: message.display@,
                    cursor: message.display@.len() as int,
                    selected_attachment: None,
                    ..old(self).composer@
                })
                &&& final(self).queue.queued_messages@
                    == old(self).queue.queued_messages@.drop_last()
                &&& final(self).queue.queued_draft == Some(message)
                &&& *final(self) == (App {
                    composer: final(self).composer,
                    queue: QueueState {
                        queued_messages: final(self).queue.queued_messages,
                        queued_draft: final(self).queue.queued_draft,
                        ..old(self).queue
                    },
                    needs_redraw: true,
                    ..*old(self)
                })
            }),
    {
        if !self.composer.input.as_str().is_empty() || self.queue.queued_draft.is_some() {
            return false;
        }
        match self.queue.take_last_into_draft() {
            None => false,
            Some(text) => {
                self.composer.load(text);
                self.needs_redraw = true;
                true
            },
        }
    }

    /// Adds a message that interrupts the turn in flight.
    pub fn push_pending_steer(&mut self, message: QueuedMessage)
        ensures
            final(self).queue.pending_steers@ == old(self).queue.pending_steers@.push(message),
            *final(self) == (App {
                queue: QueueState {
                    pending_steers: final(self).queue.pending_steers,
                    submit_pending_steers_after_interrupt: true,
                    ..old(self).queue
                },
                needs_redraw: true,
                ..*old(self)
            }),
    {
        self.queue.pending_steers.push_back(message);
        self.queue.submit_pending_steers_after_interrupt = true;
        self.needs_redraw = true;
    }

    /// Takes the messages that interrupt the turn, the oldest first.
    pub fn drain_pending_steers(&mut self) -> (res: Vec<QueuedMessage>)
        ensures
            res@ == old(self).queue.pending_steers@,
            final(self).queue.pending_steers@.len() == 0,
            *final(self) == (App {
                queue: QueueState {
                    pending_steers: final(self).queue.pending_steers,
                    submit_pending_steers_after_interrupt: false,
                    ..old(self).queue
                },
                needs_redraw: old(self).needs_redraw || old(self).queue.pending_steers@.len() > 0,
                ..*old(self)
            }),
    {
        self.queue.submit_pending_steers_after_interrupt = false;
        let pending = self.queue.pending_steers.len() > 0;
        self.redraw_if(pending);
        let mut out: Vec<QueuedMessage> = Vec::new();
        let mut steers: VecDeque<QueuedMessage> = VecDeque::new();
        std::mem::swap(&mut self.queue.pending_steers, &mut steers);
        let ghost all = steers@;
        while steers.len() > 0
            invariant
                out@ + steers@ =~= all,
            decreases steers@.len(),
        {
            let ghost rest = steers@;
            match steers.pop_front() {
                Some(message) => {
                    proof {
                        assert(rest =~= seq![message] + steers@);
                        assert(out@.push(message) + steers@ =~= out@ + rest);
                    }
                    out.push(message);
                },
                None => {},
            }
        }
        proof { assert(out@ =~= all); }
        out
    }

    /// How a submitted input is routed: at once when idle and online, else it
    /// waits.
    pub open spec fn disposition(self) -> SubmitDisposition {
        if self.offline_mode || self.is_loading {
            SubmitDisposition::Queue
        } else {
            SubmitDisposition::Immediate
        }
    }

    /// Decides how a submitted input is routed.
    pub fn decide_submit_disposition(&self) -> (res: SubmitDisposition)
        ensures
            res == self.disposition(),
    {
        if self.offline_mode {
            return SubmitDisposition::Queue;
        }
        if !self.is_loading {
            return SubmitDisposition::Immediate;
        }
        SubmitDisposition::Queue
    }
}

} // verus!
