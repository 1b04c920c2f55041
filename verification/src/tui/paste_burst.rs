//! Telling pasted text from typed text on terminals without paste brackets.
//!
//! Characters that arrive faster than anybody types are held back in a buffer
//! and inserted as one paste. Times are in milliseconds.

use vstd::prelude::*;

verus! {

/// A character held back longer than this was typed.
pub const PASTE_BURST_CHAR_INTERVAL_MS: u64 = 8;

/// A burst that is silent longer than this has ended.
pub const PASTE_BURST_IDLE_TIMEOUT_MS: u64 = 60;

/// How long after a burst an Enter key still belongs to it.
pub const PASTE_ENTER_SUPPRESS_WINDOW_MS: u64 = 120;

/// What a flush hands over.
#[derive(Debug)]
pub enum FlushResult {
    /// A burst of pasted text.
    Paste(String),
    /// A single typed character.
    Typed(char),
    /// Nothing is due.
    Nothing,
}

/// Characters held back until it is known whether they were typed or pasted.
#[derive(Debug)]
pub struct PasteBurst {
    pub buffer: String,
    pub active: bool,
    pub pending_first_char: Option<char>,
    pub last_plain_char_time: Option<u64>,
    pub burst_window_until: Option<u64>,
}

/// The mathematical form of a [`PasteBurst`].
#[verifier::ext_equal]
pub struct PasteBurstModel {
    pub buffer: Seq<char>,
    pub active: bool,
    pub pending_first_char: Option<char>,
    pub last_plain_char_time: Option<u64>,
    pub burst_window_until: Option<u64>,
}

impl View for PasteBurst {
    type V = PasteBurstModel;

    open spec fn view(&self) -> PasteBurstModel {
        PasteBurstModel {
            buffer: self.buffer@,
            active: self.active,
            pending_first_char: self.pending_first_char,
            last_plain_char_time: self.last_plain_char_time,
            burst_window_until: self.burst_window_until,
        }
    }
}

/// The time `ms` after `now`, as far as the clock reaches.
pub open spec fn later(now: u64, ms: u64) -> u64 {
    if now + ms <= u64::MAX {
        (now + ms) as u64
    } else {
        u64::MAX
    }
}

/// The time from `then` to `now`, or zero where `then` lies ahead.
pub open spec fn elapsed(now: u64, then: u64) -> int {
    if now >= then {
        now - then
    } else {
        0
    }
}

impl PasteBurstModel {
    /// Nothing is held back and no window is open.
    pub open spec fn idle() -> PasteBurstModel {
        PasteBurstModel {
            buffer: Seq::empty(),
            active: false,
            pending_first_char: None,
            last_plain_char_time: None,
            burst_window_until: None,
        }
    }

    /// A burst is being put together.
    pub open spec fn is_buffering(self) -> bool {
        self.active || self.buffer.len() > 0
    }

    /// Something is held back.
    pub open spec fn holds_text(self) -> bool {
        self.is_buffering() || self.pending_first_char is Some
    }

    /// An Enter key at this time belongs to a paste.
    pub open spec fn absorbs_enter(self, now: u64) -> bool {
        self.holds_text() || (self.burst_window_until matches Some(until) && now <= until)
    }

    /// The text held back, the first character behind the buffer.
    pub open spec fn held_text(self) -> Seq<char> {
        match self.pending_first_char {
            Some(c) => self.buffer.push(c),
            None => self.buffer,
        }
    }

    /// The burst after its text was handed over.
    pub open spec fn handed_over(self) -> PasteBurstModel {
        PasteBurstModel {
            buffer: Seq::empty(),
            active: false,
            pending_first_char: None,
            ..self
        }
    }

    /// The burst with its window open from this time.
    pub open spec fn with_window(self, now: u64) -> PasteBurstModel {
        PasteBurstModel {
            burst_window_until: Some(later(now, PASTE_ENTER_SUPPRESS_WINDOW_MS)),
            ..self
        }
    }

    /// How long the burst waits for more before it hands over its text.
    pub open spec fn timeout(self) -> u64 {
        if self.is_buffering() {
            PASTE_BURST_IDLE_TIMEOUT_MS
        } else {
            PASTE_BURST_CHAR_INTERVAL_MS
        }
    }

    /// The burst has been silent for longer than it waits.
    pub open spec fn is_due(self, now: u64) -> bool {
        self.last_plain_char_time matches Some(then) && elapsed(now, then) > self.timeout()
    }

    /// How long until something held back is due.
    pub open spec fn flush_delay(self, now: u64) -> Option<u64> {
        match self.last_plain_char_time {
            Some(then) if self.holds_text() => Some(
                elapsed(later(then, self.timeout()), now) as u64,
            ),
            _ => None,
        }
    }

    /// The burst after a flush at this time.
    pub open spec fn flushed(self, now: u64) -> PasteBurstModel {
        if !self.is_due(now) {
            self
        } else if self.is_buffering() {
            PasteBurstModel { buffer: Seq::empty(), active: false, ..self }
        } else {
            PasteBurstModel { pending_first_char: None, ..self }
        }
    }
}

impl Default for PasteBurst {
    fn default() -> (res: Self)
        ensures
            res@ == PasteBurstModel::idle(),
    {
        let res = PasteBurst {
            buffer: String::new(),
            active: false,
            pending_first_char: None,
            last_plain_char_time: None,
            burst_window_until: None,
        };
        proof { assert(res@ =~= PasteBurstModel::idle()); }
        res
    }
}

fn time_after(now: u64, ms: u64) -> (res: u64)
    ensures
        res == later(now, ms),
{
    now.saturating_add(ms)
}

impl PasteBurst {
    fn buffering(&self) -> (res: bool)
        ensures
            res == self@.is_buffering(),
    {
        self.active || !self.buffer.as_str().is_empty()
    }

    /// Whether anything is held back.
    pub fn is_active(&self) -> (res: bool)
        ensures
            res == self@.holds_text(),
    {
        self.buffering() || self.pending_first_char.is_some()
    }

    /// Whether an Enter key belongs to a paste rather than being a submit.
    pub fn newline_should_insert_instead_of_submit(&self, now: u64) -> (res: bool)
        ensures
            res == self@.absorbs_enter(now),
    {
        let in_window = match self.burst_window_until {
            Some(until) => now <= until,
            None => false,
        };
        self.is_active() || in_window
    }

    /// Puts a line break into the buffer while something is held back. Returns
    /// whether it did.
    pub fn append_newline_if_active(&mut self, now: u64) -> (res: bool)
        ensures
            res == old(self)@.holds_text(),
            res ==> final(self)@ == (PasteBurstModel {
                buffer: old(self)@.buffer.push('\n'),
                ..old(self)@
            }).with_window(now),
            !res ==> *final(self) == *old(self),
    {
        if self.is_active() {
            self.buffer.push('\n');
            self.burst_window_until = Some(time_after(now, PASTE_ENTER_SUPPRESS_WINDOW_MS));
            true
        } else {
            false
        }
    }

    /// Opens the window in which an Enter key belongs to a paste.
    pub fn extend_window(&mut self, now: u64)
        ensures
            final(self)@ == old(self)@.with_window(now),
    {
        self.burst_window_until = Some(time_after(now, PASTE_ENTER_SUPPRESS_WINDOW_MS));
    }

    /// Holds back a first character that may begin a burst.
    pub fn hold_first_char(&mut self, c: char, now: u64)
        ensures
            final(self)@ == (PasteBurstModel {
                pending_first_char: Some(c),
                last_plain_char_time: Some(now),
                ..old(self)@
            }),
    {
        self.pending_first_char = Some(c);
        self.last_plain_char_time = Some(now);
    }

    /// Adds a character to the burst.
    pub fn append_char_to_buffer(&mut self, c: char, now: u64)
        ensures
            final(self)@ == (PasteBurstModel {
                buffer: old(self)@.buffer.push(c),
                last_plain_char_time: Some(now),
                ..old(self)@
            }).with_window(now),
    {
        self.buffer.push(c);
        self.last_plain_char_time = Some(now);
        self.burst_window_until = Some(time_after(now, PASTE_ENTER_SUPPRESS_WINDOW_MS));
    }

    /// Hands over what is held back before the input is changed otherwise.
    pub fn flush_before_modified_input(&mut self) -> (res: Option<String>)
        ensures
            old(self)@.holds_text() ==> (res matches Some(text) && text@ == old(self)@.held_text())
                && final(self)@ == old(self)@.handed_over(),
            !old(self)@.holds_text() ==> res is None && *final(self) == *old(self),
    {
        if !self.is_active() {
            return None;
        }
        self.active = false;
        let mut out = self.buffer.clone();
        self.buffer = String::new();
        if let Some(c) = self.pending_first_char {
            out.push(c);
        }
        self.pending_first_char = None;
        proof { assert(self.buffer@ =~= Seq::empty()); }
        Some(out)
    }

    /// Hands over what has been held back long enough.
    pub fn flush_if_due(&mut self, now: u64) -> (res: FlushResult)
        ensures
            final(self)@ == old(self)@.flushed(now),
            ({
                let before = old(self)@;
                if !before.is_due(now) {
                    res is Nothing
                } else if before.is_buffering() {
                    res matches FlushResult::Paste(text) && text@ == before.buffer
                } else {
                    match before.pending_first_char {
                        Some(c) => res == FlushResult::Typed(c),
                        None => res is Nothing,
                    }
                }
            }),
    {
        let buffering = self.buffering();
        let timeout: u64 = if buffering {
            PASTE_BURST_IDLE_TIMEOUT_MS
        } else {
            PASTE_BURST_CHAR_INTERVAL_MS
        };
        let due = match self.last_plain_char_time {
            Some(then) => now.saturating_sub(then) > timeout,
            None => false,
        };
        if !due {
            return FlushResult::Nothing;
        }
        if buffering {
            self.active = false;
            let out = self.buffer.clone();
            self.buffer = String::new();
            proof { assert(self.buffer@ =~= Seq::empty()); }
            FlushResult::Paste(out)
        } else {
            let pending = self.pending_first_char;
            self.pending_first_char = None;
            match pending {
                Some(c) => FlushResult::Typed(c),
                None => FlushResult::Nothing,
            }
        }
    }

    /// How long until something held back is due, in milliseconds.
    pub fn next_flush_delay(&self, now: u64) -> (res: Option<u64>)
        ensures
            res == self@.flush_delay(now),
    {
        if !self.is_active() {
            return None;
        }
        match self.last_plain_char_time {
            Some(then) => {
                let timeout: u64 = if self.buffering() {
                    PASTE_BURST_IDLE_TIMEOUT_MS
                } else {
                    PASTE_BURST_CHAR_INTERVAL_MS
                };
                Some(time_after(then, timeout).saturating_sub(now))
            },
            None => None,
        }
    }

    /// Forgets what is held back and closes the window.
    pub fn clear_after_explicit_paste(&mut self)
        ensures
            final(self)@ == PasteBurstModel::idle(),
    {
        self.buffer = String::new();
        self.active = false;
        self.pending_first_char = None;
        self.last_plain_char_time = None;
        self.burst_window_until = None;
        proof { assert(self@ =~= PasteBurstModel::idle()); }
    }
}

} // verus!
