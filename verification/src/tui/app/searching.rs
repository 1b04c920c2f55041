//! Searching earlier inputs.

use vstd::prelude::*;

use crate::text::{char_count, texts};
use crate::tui::app::App;
use crate::tui::composer::{lesser, ComposerModel};
use crate::tui::recall::{normalize_paste_text, without_returns};

verus! {

/// What the status line says when a search starts.
pub const SEARCH_STARTED: &'static str = "History search: type to filter, Enter accepts";

/// What the status line says while a search is typed.
pub const SEARCH_TYPED: &'static str = "History search: Enter accepts, Esc restores";

/// What the status line says when a match was taken.
pub const SEARCH_ACCEPTED: &'static str = "History match inserted into composer";

/// What the status line says when there is no match to take.
pub const SEARCH_FAILED: &'static str = "No history matches";

/// What the status line says when a search was given up.
pub const SEARCH_CANCELED: &'static str = "History search canceled";

impl App {
    /// The application with this composer while the status line says `text`.
    pub open spec fn is_edited_saying(self, before: App, composer: ComposerModel, text: Seq<char>) -> bool {
        &&& self.composer@ == composer
        &&& self.status@ == before.status@.saying(text)
        &&& self == (App {
            composer: self.composer,
            status: self.status,
            needs_redraw: true,
            ..before
        })
    }

    /// Starts a search, unless one is under way.
    pub fn start_history_search(&mut self)
        ensures
            old(self).composer@.search is Some ==> final(self).composer@ == old(self).composer@
                && *final(self) == (App { composer: final(self).composer, ..*old(self) }),
            old(self).composer@.search is None ==> final(self).is_edited_saying(
                *old(self),
                old(self).composer@.search_started(),
                SEARCH_STARTED@,
            ),
    {
        if self.composer.start_history_search() {
            self.status.say(SEARCH_STARTED.to_owned());
            self.needs_redraw = true;
        }
    }

    /// Whether a search is under way.
    pub fn is_history_search_active(&self) -> (res: bool)
        ensures
            res == (self.composer@.search is Some),
    {
        self.composer.composer_history_search.is_some()
    }

    /// What is searched for.
    pub fn history_search_query(&self) -> (res: Option<&str>)
        ensures
            match self.composer@.search {
                Some(s) => res matches Some(query) && query@ == s.query,
                None => res is None,
            },
    {
        match &self.composer.composer_history_search {
            Some(search) => Some(search.query.as_str()),
            None => None,
        }
    }

    /// Which match is selected.
    pub fn history_search_selected_index(&self) -> (res: usize)
        ensures
            match self.composer@.search {
                Some(s) => res == s.selected,
                None => res == 0,
            },
    {
        match &self.composer.composer_history_search {
            Some(search) => search.selected,
            None => 0,
        }
    }

    /// What the composer shows: what is searched for, or the input.
    pub fn composer_display_input(&self) -> (res: &str)
        ensures
            res@ == (match self.composer@.search {
                Some(s) => s.query,
                None => self.composer@.input,
            }),
    {
        match self.history_search_query() {
            Some(query) => query,
            None => self.composer.input.as_str(),
        }
    }

    /// Where the composer shows its cursor.
    pub fn composer_display_cursor(&self) -> (res: usize)
        ensures
            res == (match self.composer@.search {
                Some(s) => s.query.len() as int,
                None => self.composer@.cursor,
            }),
    {
        match &self.composer.composer_history_search {
            Some(search) => char_count(search.query.as_str()),
            None => self.composer.cursor_position,
        }
    }

    /// The matches of the search under way.
    pub fn history_search_matches(&self) -> (res: Vec<String>)
        ensures
            texts(res@) == (match self.composer@.search {
                Some(s) => self.composer@.matches_for(s.query),
                None => Seq::empty(),
            }),
    {
        match self.history_search_query() {
            Some(query) => self.composer.history_search_matches_for_query(query),
            None => {
                let none: Vec<String> = Vec::new();
                proof { assert(texts(none@) =~= Seq::empty()); }
                none
            },
        }
    }

    /// Adds a character to what is searched for.
    pub fn history_search_insert_char(&mut self, ch: char)
        ensures
            match old(self).composer@.search {
                Some(s) => final(self).is_edited_saying(
                    *old(self),
                    old(self).composer@.search_changed(s.query.push(ch)),
                    SEARCH_TYPED@,
                ),
                None => *final(self) == *old(self),
            },
    {
        let mut text = String::new();
        text.push(ch);
        proof {
            assert(text@ =~= seq![ch]);
            if let Some(s) = self.composer@.search {
                assert(s.query + text@ =~= s.query.push(ch));
            }
        }
        if self.composer.extend_search(text.as_str()) {
            self.status.say(SEARCH_TYPED.to_owned());
            self.needs_redraw = true;
        }
    }

    /// Adds a text to what is searched for.
    pub fn history_search_insert_str(&mut self, text: &str)
        ensures
            match old(self).composer@.search {
                Some(s) => if text@.len() > 0 {
                    final(self).is_edited_saying(
                        *old(self),
                        old(self).composer@.search_changed(s.query + without_returns(text@)),
                        SEARCH_TYPED@,
                    )
                } else {
                    *final(self) == *old(self)
                },
                None => *final(self) == *old(self),
            },
    {
        if text.is_empty() {
            return;
        }
        let normalized = normalize_paste_text(text);
        if self.composer.extend_search(normalized.as_str()) {
            self.status.say(SEARCH_TYPED.to_owned());
            self.needs_redraw = true;
        }
    }

    /// Takes back the last character of what is searched for.
    pub fn history_search_backspace(&mut self)
        ensures
            match old(self).composer@.search {
                Some(s) => final(self).composer@ == old(self).composer@.search_changed(
                    if s.query.len() == 0 {
                        s.query
                    } else {
                        s.query.drop_last()
                    },
                ) && *final(self) == old(self).with_composer(final(self).composer, true),
                None => *final(self) == *old(self),
            },
    {
        if self.composer.shorten_search() {
            self.needs_redraw = true;
        }
    }

    /// Selects the match before.
    pub fn history_search_select_previous(&mut self)
        ensures
            match old(self).composer@.search {
                Some(s) => final(self).composer@ == old(self).composer@.search_selected(
                    if s.selected > 0 {
                        s.selected - 1
                    } else {
                        0
                    },
                ) && *final(self) == old(self).with_composer(final(self).composer, true),
                None => *final(self) == *old(self),
            },
    {
        if self.is_history_search_active() {
            let selected = self.history_search_selected_index();
            self.composer.select_match(selected.saturating_sub(1));
            self.needs_redraw = true;
        }
    }

    /// Selects the match behind, where there is any match.
    pub fn history_search_select_next(&mut self)
        ensures
            match old(self).composer@.search {
                Some(s) => {
                    let count = old(self).composer@.matches_for(s.query).len();
                    if count > 0 {
                        final(self).composer@ == old(self).composer@.search_selected(
                            lesser(s.selected + 1, count - 1),
                        ) && *final(self) == old(self).with_composer(final(self).composer, true)
                    } else {
                        *final(self) == *old(self)
                    }
                },
                None => *final(self) == *old(self),
            },
    {
        if self.is_history_search_active() {
            let matches = self.history_search_matches();
            let selected = self.history_search_selected_index();
            proof { assert(texts(matches@).len() == matches@.len()); }
            if matches.len() > 0 {
                let last: usize = matches.len() - 1;
                let next: usize = if selected < last {
                    selected + 1
                } else {
                    last
                };
                self.composer.select_match(next);
                self.needs_redraw = true;
            }
        }
    }

    /// Ends the search with its selected match in the composer. Returns whether
    /// there was one.
    pub fn accept_history_search(&mut self) -> (res: bool)
        ensures
            res == old(self).composer@.search_succeeds(),
            match old(self).composer@.search {
                Some(_) => final(self).is_edited_saying(
                    *old(self),
                    old(self).composer@.search_accepted(),
                    if res {
                        SEARCH_ACCEPTED@
                    } else {
                        SEARCH_FAILED@
                    },
                ),
                None => final(self).composer@ == old(self).composer@ && *final(self) == (App {
                    composer: final(self).composer,
                    ..*old(self)
                }),
            },
    {
        let active = self.is_history_search_active();
        let accepted = self.composer.accept_history_search();
        if active {
            let text = if accepted {
                SEARCH_ACCEPTED
            } else {
                SEARCH_FAILED
            };
            self.status.say(text.to_owned());
            self.needs_redraw = true;
        }
        accepted
    }

    /// Ends the search and restores the draft it started from.
    pub fn cancel_history_search(&mut self)
        ensures
            match old(self).composer@.search {
                Some(_) => final(self).is_edited_saying(
                    *old(self),
                    old(self).composer@.search_canceled(),
                    SEARCH_CANCELED@,
                ),
                None => final(self).composer@ == old(self).composer@ && *final(self) == (App {
                    composer: final(self).composer,
                    ..*old(self)
                }),
            },
    {
        if self.composer.cancel_history_search() {
            self.status.say(SEARCH_CANCELED.to_owned());
            self.needs_redraw = true;
        }
    }
}

} // verus!
