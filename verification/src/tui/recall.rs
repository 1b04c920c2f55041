//! Recalling earlier inputs into the composer, and submitting its text.

use std::collections::VecDeque;

use vstd::prelude::*;

use crate::compaction::extraction::with_new;
use crate::text::{
    char_count, contains, contains_text, has_prefix, is_blank, list_has, same_text, starts_with,
    texts, to_chars, to_lowercase, trim, trimmed, unicode_lowercase,
};
use crate::tui::composer::{
    lesser, ComposerHistorySearch, ComposerModel, ComposerState, DraftModel, InputHistoryDraft,
    SearchModel, MAX_DRAFT_HISTORY,
};
use crate::tui::paste_burst::PasteBurstModel;

verus! {

// ---------------------------------------------------------------------------
// Text
// ---------------------------------------------------------------------------

/// `s` without its carriage returns.
pub open spec fn without_returns(s: Seq<char>) -> Seq<char>
    decreases s.len(),
{
    if s.len() == 0 {
        Seq::empty()
    } else if s.last() == '\r' {
        without_returns(s.drop_last())
    } else {
        without_returns(s.drop_last()).push(s.last())
    }
}

/// Pasted text with plain line breaks.
pub fn normalize_paste_text(text: &str) -> (res: String)
    ensures
        res@ == without_returns(text@),
{
    let chars = to_chars(text);
    let mut out = String::new();
    let mut i: usize = 0;
    proof {
        assert(text@.take(0) =~= Seq::empty());
        assert(out@ =~= Seq::empty());
    }
    while i < chars.len()
        invariant
            i <= chars@.len(),
            chars@ == text@,
            out@ == without_returns(text@.take(i as int)),
        decreases chars@.len() - i,
    {
        proof { assert(text@.take(i + 1).drop_last() =~= text@.take(i as int)); }
        if chars[i] != '\r' {
            out.push(chars[i]);
        }
        i += 1;
    }
    proof { assert(text@.take(i as int) =~= text@); }
    out
}

/// Normalized text holds no carriage return.
pub proof fn normalized_text_has_no_returns(s: Seq<char>, i: int)
    requires
        0 <= i < without_returns(s).len(),
    ensures
        without_returns(s)[i] != '\r',
    decreases s.len(),
{
    if s.len() > 0 && (s.last() == '\r' || i < without_returns(s.drop_last()).len()) {
        normalized_text_has_no_returns(s.drop_last(), i);
    }
}

// ---------------------------------------------------------------------------
// Earlier inputs
// ---------------------------------------------------------------------------

impl ComposerModel {
    /// Earlier inputs can be recalled: where one is shown, it is one of the list
    /// or the next one behind it.
    pub open spec fn can_recall(self) -> bool {
        self.input_history.len() > 0 ==> (self.history_index matches Some(i) ==> i
            <= self.input_history.len())
    }

    /// The composer shows a recalled text.
    pub open spec fn showing(self, text: Seq<char>, cursor: int) -> ComposerModel {
        ComposerModel {
            input: text,
            cursor,
            selected_attachment: None,
            slash_menu_hidden: false,
            paste_burst: PasteBurstModel::idle(),
            ..self
        }
    }

    /// The earlier input that comes before the one shown.
    pub open spec fn earlier_index(self) -> int {
        match self.history_index {
            None => self.input_history.len() - 1,
            Some(i) => if i > 0 {
                i - 1
            } else {
                0
            },
        }
    }

    /// The previous input is recalled. The draft is set aside first.
    pub open spec fn recalled_up(self) -> ComposerModel {
        if self.input_history.len() == 0 {
            self
        } else {
            let text = self.input_history[self.earlier_index()];
            let draft = if self.history_index is None {
                Some(DraftModel { input: self.input, cursor: self.cursor })
            } else {
                self.navigation_draft
            };
            ComposerModel {
                history_index: Some(self.earlier_index() as usize),
                navigation_draft: draft,
                ..self
            }.showing(text, text.len() as int)
        }
    }

    /// The next input is recalled, or the draft behind the last one.
    pub open spec fn recalled_down(self) -> ComposerModel {
        match self.history_index {
            Some(i) if self.input_history.len() > 0 => if i + 1 < self.input_history.len() {
                let text = self.input_history[i + 1];
                (ComposerModel { history_index: Some((i + 1) as usize), ..self }).showing(
                    text,
                    text.len() as int,
                )
            } else {
                match self.navigation_draft {
                    Some(draft) => (ComposerModel {
                        history_index: None,
                        navigation_draft: None,
                        ..self
                    }).showing(draft.input, lesser(draft.cursor, draft.input.len() as int)),
                    None => self.cleared(),
                }
            },
            _ => self,
        }
    }

    /// The draft comes back from navigation.
    pub open spec fn restores_draft(self) -> bool {
        &&& self.input_history.len() > 0
        &&& self.history_index matches Some(i) && i + 1 >= self.input_history.len()
    }
}

/// Going up into the earlier inputs and down again restores the draft and its
/// cursor.
pub proof fn down_undoes_up(m: ComposerModel)
    requires
        m.input_history.len() > 0,
        m.input_history.len() <= usize::MAX,
        m.history_index is None,
        0 <= m.cursor <= m.input.len(),
    ensures
        m.recalled_up().recalled_down().input == m.input,
        m.recalled_up().recalled_down().cursor == m.cursor,
        m.recalled_up().recalled_down().history_index is None,
{
}

/// Typing ends the recalling: what is shown becomes the draft.
pub proof fn typing_ends_recall(m: ComposerModel, ch: char)
    ensures
        m.typed(ch).recalled_down() == m.typed(ch),
{
}

// ---------------------------------------------------------------------------
// Recovered drafts
// ---------------------------------------------------------------------------

/// `list` without `item`.
pub open spec fn without_text(list: Seq<Seq<char>>, item: Seq<char>) -> Seq<Seq<char>>
    decreases list.len(),
{
    if list.len() == 0 {
        Seq::empty()
    } else if list.last() == item {
        without_text(list.drop_last(), item)
    } else {
        without_text(list.drop_last(), item).push(list.last())
    }
}

/// The last `n` of a list, or all of it when it is shorter.
pub open spec fn last_of<T>(list: Seq<T>, n: int) -> Seq<T> {
    if list.len() <= n {
        list
    } else {
        list.skip(list.len() - n)
    }
}

/// A draft is remembered as the latest one, unless it is blank.
pub open spec fn remembered(drafts: Seq<Seq<char>>, draft: Seq<char>) -> Seq<Seq<char>> {
    if trimmed(draft).len() == 0 {
        drafts
    } else {
        last_of(without_text(drafts, draft).push(draft), MAX_DRAFT_HISTORY as int)
    }
}

/// A remembered draft is the latest one, and the drafts keep within their limit.
pub proof fn remembered_drafts_are_bounded(drafts: Seq<Seq<char>>, draft: Seq<char>)
    requires
        drafts.len() <= MAX_DRAFT_HISTORY,
    ensures
        remembered(drafts, draft).len() <= MAX_DRAFT_HISTORY,
        trimmed(draft).len() > 0 ==> remembered(drafts, draft).len() > 0 && remembered(
            drafts,
            draft,
        ).last() == draft,
{
}

// ---------------------------------------------------------------------------
// History search
// ---------------------------------------------------------------------------

/// A text that is `lower` in lower case holds the lowercase text `needle`.
pub open spec fn holds_lowercase(
    candidate: Seq<char>,
    lower: Seq<char>,
    needle: Seq<char>,
) -> bool {
    trimmed(candidate).len() > 0 && (needle.len() == 0 || contains_text(lower, needle))
}

/// A text matches a search.
pub open spec fn search_matches(candidate: Seq<char>, query: Seq<char>) -> bool {
    holds_lowercase(
        candidate,
        unicode_lowercase(candidate),
        unicode_lowercase(trimmed(query)),
    )
}

/// `found` and the matches among the last `n` texts of `list`, latest first,
/// each once.
pub open spec fn with_matches(
    found: Seq<Seq<char>>,
    list: Seq<Seq<char>>,
    query: Seq<char>,
    n: int,
) -> Seq<Seq<char>>
    decreases n,
{
    if n <= 0 {
        found
    } else {
        let rest = with_matches(found, list, query, n - 1);
        let candidate = list[list.len() - n];
        if search_matches(candidate, query) {
            with_new(rest, candidate)
        } else {
            rest
        }
    }
}

impl ComposerModel {
    /// The matches of a search: recovered drafts, then earlier inputs, latest
    /// first.
    pub open spec fn matches_for(self, query: Seq<char>) -> Seq<Seq<char>> {
        with_matches(
            with_matches(
                Seq::empty(),
                self.draft_history,
                query,
                self.draft_history.len() as int,
            ),
            self.input_history,
            query,
            self.input_history.len() as int,
        )
    }

    /// The composer with this search.
    pub open spec fn searching(self, search: SearchModel) -> ComposerModel {
        ComposerModel { search: Some(search), ..self }
    }

    /// A search starts from the current draft.
    pub open spec fn search_started(self) -> ComposerModel {
        match self.search {
            Some(_) => self,
            None => ComposerModel {
                search: Some(
                    SearchModel {
                        pre_search_input: self.input,
                        pre_search_cursor: self.cursor,
                        query: Seq::empty(),
                        selected: 0,
                    },
                ),
                slash_menu_hidden: true,
                mention_menu_hidden: true,
                paste_burst: PasteBurstModel::idle(),
                ..self
            },
        }
    }

    /// The search looks for something else.
    pub open spec fn search_changed(self, query: Seq<char>) -> ComposerModel {
        match self.search {
            Some(s) => self.searching(SearchModel { query, selected: 0, ..s }),
            None => self,
        }
    }

    /// Another match is selected.
    pub open spec fn search_selected(self, selected: int) -> ComposerModel {
        match self.search {
            Some(s) => self.searching(SearchModel { selected, ..s }),
            None => self,
        }
    }

    /// The search ends with its selected match in the composer, or goes on when
    /// there is none.
    pub open spec fn search_accepted(self) -> ComposerModel {
        match self.search {
            Some(s) => {
                let matches = self.matches_for(s.query);
                if matches.len() == 0 {
                    self
                } else {
                    let text = matches[lesser(s.selected, matches.len() - 1)];
                    ComposerModel {
                        search: None,
                        input: text,
                        cursor: text.len() as int,
                        history_index: None,
                        ..self
                    }
                }
            },
            None => self,
        }
    }

    /// The search ends with a match.
    pub open spec fn search_succeeds(self) -> bool {
        self.search matches Some(s) && self.matches_for(s.query).len() > 0
    }

    /// The search ends and the draft it started from comes back.
    pub open spec fn search_canceled(self) -> ComposerModel {
        match self.search {
            Some(s) => ComposerModel {
                search: None,
                input: s.pre_search_input,
                cursor: lesser(s.pre_search_cursor, s.pre_search_input.len() as int),
                ..self
            },
            None => self,
        }
    }
}

/// Whatever is searched for, canceling restores the draft and its cursor.
pub proof fn canceling_restores_draft(m: ComposerModel, query: Seq<char>, selected: int)
    requires
        m.search is None,
        0 <= m.cursor <= m.input.len(),
    ensures
        ({
            let after = m.search_started().search_changed(query).search_selected(
                selected,
            ).search_canceled();
            after.input == m.input && after.cursor == m.cursor && after.search is None
        }),
{
}

/// A search finds no text twice, and what it finds matches.
pub proof fn matches_are_distinct(m: ComposerModel, query: Seq<char>)
    ensures
        m.matches_for(query).no_duplicates(),
        forall|i: int|
            0 <= i < m.matches_for(query).len() ==> search_matches(
                #[trigger] m.matches_for(query)[i],
                query,
            ),
{
    lemma_matches(Seq::empty(), m.draft_history, query, m.draft_history.len() as int);
    lemma_matches(
        with_matches(Seq::empty(), m.draft_history, query, m.draft_history.len() as int),
        m.input_history,
        query,
        m.input_history.len() as int,
    );
}

proof fn lemma_matches(found: Seq<Seq<char>>, list: Seq<Seq<char>>, query: Seq<char>, n: int)
    requires
        found.no_duplicates(),
        forall|i: int| 0 <= i < found.len() ==> search_matches(#[trigger] found[i], query),
    ensures
        with_matches(found, list, query, n).no_duplicates(),
        forall|i: int|
            0 <= i < with_matches(found, list, query, n).len() ==> search_matches(
                #[trigger] with_matches(found, list, query, n)[i],
                query,
            ),
    decreases n,
{
    if n > 0 {
        lemma_matches(found, list, query, n - 1);
    }
}

/// A search misses none of the drafts and inputs that match.
pub proof fn matches_are_complete(m: ComposerModel, query: Seq<char>, text: Seq<char>)
    requires
        m.draft_history.contains(text) || m.input_history.contains(text),
        search_matches(text, query),
    ensures
        m.matches_for(query).contains(text),
{
    let drafts = with_matches(
        Seq::empty(),
        m.draft_history,
        query,
        m.draft_history.len() as int,
    );
    let n = m.input_history.len() as int;
    if m.draft_history.contains(text) {
        lemma_found(Seq::empty(), m.draft_history, query, m.draft_history.len() as int, text);
        assert(drafts.contains(text));
    }
    lemma_found(drafts, m.input_history, query, n, text);
}

proof fn lemma_found(
    found: Seq<Seq<char>>,
    list: Seq<Seq<char>>,
    query: Seq<char>,
    n: int,
    text: Seq<char>,
)
    requires
        0 <= n <= list.len(),
        search_matches(text, query),
    ensures
        found.contains(text) ==> with_matches(found, list, query, n).contains(text),
        list.skip(list.len() - n).contains(text) ==> with_matches(found, list, query, n).contains(
            text,
        ),
        list.contains(text) && n == list.len() ==> with_matches(found, list, query, n).contains(
            text,
        ),
    decreases n,
{
    let all = with_matches(found, list, query, n);
    if n > 0 {
        lemma_found(found, list, query, n - 1, text);
        let rest = with_matches(found, list, query, n - 1);
        let candidate = list[list.len() - n];
        if rest.contains(text) {
            let k = choose|k: int| 0 <= k < rest.len() && rest[k] == text;
            assert(all[k] == text);
        }
        if candidate == text && !rest.contains(text) {
            assert(all.last() == text);
        }
        if list.skip(list.len() - n).contains(text) {
            let tail = list.skip(list.len() - n);
            let k = choose|k: int| 0 <= k < tail.len() && tail[k] == text;
            if k > 0 {
                assert(list.skip(list.len() - (n - 1))[k - 1] == text);
            }
        }
    }
    if n == list.len() {
        assert(list.skip(0) =~= list);
    }
}

// ---------------------------------------------------------------------------
// Submitting
// ---------------------------------------------------------------------------

/// The earlier inputs once `input` was submitted. Commands are not recorded.
pub open spec fn recorded(history: Seq<Seq<char>>, input: Seq<char>, limit: nat) -> Seq<Seq<char>> {
    if has_prefix(input, "/"@) {
        history
    } else {
        last_of(history.push(input), limit as int)
    }
}

/// The earlier inputs keep within their limit.
pub proof fn recorded_inputs_are_bounded(history: Seq<Seq<char>>, input: Seq<char>, limit: nat)
    requires
        history.len() <= limit,
    ensures
        recorded(history, input, limit).len() <= limit,
{
}

impl ComposerModel {
    /// The composer after its input was submitted.
    pub open spec fn submitted(self, limit: nat) -> ComposerModel {
        (ComposerModel {
            input_history: recorded(self.input_history, self.input, limit),
            ..self
        }).cleared()
    }
}

/// Whatever happens to the composer, earlier inputs can still be recalled.
pub proof fn recalling_stays_possible(
    m: ComposerModel,
    text: Seq<char>,
    ch: char,
    query: Seq<char>,
    limit: nat,
)
    requires
        m.can_recall(),
        m.input_history.len() <= usize::MAX,
    ensures
        m.inserted(text).can_recall(),
        m.typed(ch).can_recall(),
        m.backspaced().can_recall(),
        m.deleted_forward().can_recall(),
        m.word_deleted_backward().can_recall(),
        m.line_start_deleted().can_recall(),
        m.word_deleted_forward().can_recall(),
        m.killed().can_recall(),
        m.yanked().can_recall(),
        m.cleared().can_recall(),
        m.recalled_up().can_recall(),
        m.recalled_down().can_recall(),
        m.search_started().can_recall(),
        m.search_changed(query).can_recall(),
        m.search_accepted().can_recall(),
        m.search_canceled().can_recall(),
        m.submitted(limit).can_recall(),
{
}

// ---------------------------------------------------------------------------
// Code
// ---------------------------------------------------------------------------

proof fn lemma_texts_push(list: Seq<String>, item: String)
    ensures
        texts(list.push(item)) == texts(list).push(item@),
{
    assert(texts(list.push(item)) =~= texts(list).push(item@));
}

impl ComposerState {
    fn show(&mut self, text: String, cursor: usize)
        ensures
            final(self)@ == old(self)@.showing(text@, cursor as int),
    {
        self.input = text;
        self.cursor_position = cursor;
        self.selected_attachment_index = None;
        self.slash_menu_hidden = false;
        self.paste_burst.clear_after_explicit_paste();
    }

    /// Recalls the previous input.
    pub fn history_up(&mut self)
        requires
            old(self)@.can_recall(),
        ensures
            final(self)@ == old(self)@.recalled_up(),
    {
        if self.input_history.len() == 0 {
            return;
        }
        let ghost before = self@;
        if self.history_index.is_none() {
            self.history_navigation_draft = Some(
                InputHistoryDraft { input: self.input.clone(), cursor: self.cursor_position },
            );
        }
        let index: usize = match self.history_index {
            None => self.input_history.len() - 1,
            Some(i) => i.saturating_sub(1),
        };
        self.history_index = Some(index);
        let text = self.input_history[index].clone();
        proof { assert(before.input_history[index as int] == text@); }
        let cursor = char_count(text.as_str());
        self.show(text, cursor);
    }

    /// Recalls the next input, or the draft behind the last one. Returns
    /// whether the draft came back.
    pub fn history_down(&mut self) -> (res: bool)
        ensures
            final(self)@ == old(self)@.recalled_down(),
            res == old(self)@.restores_draft(),
    {
        let total: usize = self.input_history.len();
        if total == 0 {
            return false;
        }
        match self.history_index {
            None => false,
            Some(i) => {
                if i < total - 1 {
                    let ghost before = self@;
                    self.history_index = Some(i + 1);
                    let text = self.input_history[i + 1].clone();
                    proof { assert(before.input_history[i + 1] == text@); }
                    let cursor = char_count(text.as_str());
                    self.show(text, cursor);
                    false
                } else {
                    self.history_index = None;
                    match self.history_navigation_draft.take() {
                        Some(draft) => {
                            let count = char_count(draft.input.as_str());
                            let cursor: usize = if draft.cursor < count {
                                draft.cursor
                            } else {
                                count
                            };
                            self.show(draft.input, cursor);
                        },
                        None => {
                            self.clear_input();
                        },
                    }
                    true
                }
            },
        }
    }

    /// Remembers a draft for recovery, unless it is blank.
    pub fn remember_draft_for_recovery(&mut self, draft: String)
        ensures
            final(self)@ == (ComposerModel {
                draft_history: remembered(old(self)@.draft_history, draft@),
                ..old(self)@
            }),
    {
        if is_blank(draft.as_str()) {
            return;
        }
        let ghost all = texts(self.draft_history@);
        let mut kept: VecDeque<String> = VecDeque::new();
        let mut i: usize = 0;
        proof {
            assert(all.take(0) =~= Seq::empty());
            assert(texts(kept@) =~= Seq::empty());
        }
        while i < self.draft_history.len()
            invariant
                i <= self.draft_history@.len() == all.len(),
                all == texts(self.draft_history@),
                texts(kept@) == without_text(all.take(i as int), draft@),
            decreases self.draft_history@.len() - i,
        {
            proof { assert(all.take(i + 1).drop_last() =~= all.take(i as int)); }
            if !same_text(self.draft_history[i].as_str(), draft.as_str()) {
                let item = self.draft_history[i].clone();
                proof { lemma_texts_push(kept@, item); }
                kept.push_back(item);
            }
            i += 1;
        }
        proof { assert(all.take(i as int) =~= all); }
        proof { lemma_texts_push(kept@, draft); }
        kept.push_back(draft);
        let ghost full = texts(kept@);
        proof { assert(full.skip(0) =~= full); }
        let ghost mut dropped: int = 0;
        while kept.len() > MAX_DRAFT_HISTORY
            invariant
                0 <= dropped <= full.len(),
                texts(kept@) == full.skip(dropped),
                dropped > 0 ==> kept@.len() >= MAX_DRAFT_HISTORY,
            decreases kept@.len(),
        {
            let ghost before = kept@;
            let _ = kept.pop_front();
            proof {
                assert(kept@ =~= before.skip(1));
                assert(texts(kept@) =~= texts(before).skip(1));
                assert(full.skip(dropped).skip(1) =~= full.skip(dropped + 1));
                dropped = dropped + 1;
            }
        }
        proof { assert(texts(kept@) =~= last_of(full, MAX_DRAFT_HISTORY as int)); }
        self.draft_history = kept;
    }

    /// Remembers the current input for recovery.
    pub fn stash_current_input_for_recovery(&mut self)
        ensures
            final(self)@ == (ComposerModel {
                draft_history: remembered(old(self)@.draft_history, old(self)@.input),
                ..old(self)@
            }),
    {
        let draft = self.input.clone();
        self.remember_draft_for_recovery(draft);
    }

    /// The matches of a search.
    pub fn history_search_matches_for_query(&self, query: &str) -> (res: Vec<String>)
        ensures
            texts(res@) == self@.matches_for(query@),
    {
        let needle = to_lowercase(trim(query).as_str());
        let mut found: Vec<String> = Vec::new();
        let ghost drafts = texts(self.draft_history@);
        let ghost inputs = texts(self.input_history@);
        proof { assert(texts(found@) =~= Seq::empty()); }
        let mut n: usize = 0;
        while n < self.draft_history.len()
            invariant
                n <= self.draft_history@.len() == drafts.len(),
                drafts == texts(self.draft_history@),
                needle@ == unicode_lowercase(trimmed(query@)),
                texts(found@) == with_matches(Seq::empty(), drafts, query@, n as int),
            decreases self.draft_history@.len() - n,
        {
            let candidate = &self.draft_history[self.draft_history.len() - 1 - n];
            proof { assert(candidate@ == drafts[drafts.len() - (n + 1)]); }
            add_match(&mut found, candidate, query, needle.as_str());
            n += 1;
        }
        let ghost first = texts(found@);
        let mut n: usize = 0;
        while n < self.input_history.len()
            invariant
                n <= self.input_history@.len() == inputs.len(),
                inputs == texts(self.input_history@),
                needle@ == unicode_lowercase(trimmed(query@)),
                texts(found@) == with_matches(first, inputs, query@, n as int),
            decreases self.input_history@.len() - n,
        {
            let candidate = &self.input_history[self.input_history.len() - 1 - n];
            proof { assert(candidate@ == inputs[inputs.len() - (n + 1)]); }
            add_match(&mut found, candidate, query, needle.as_str());
            n += 1;
        }
        found
    }

    /// Starts a search. Returns whether none was under way.
    pub fn start_history_search(&mut self) -> (res: bool)
        ensures
            final(self)@ == old(self)@.search_started(),
            res == (old(self)@.search is None),
    {
        if self.composer_history_search.is_some() {
            return false;
        }
        self.composer_history_search = Some(
            ComposerHistorySearch::new(self.input.clone(), self.cursor_position),
        );
        self.slash_menu_hidden = true;
        self.mention_menu_hidden = true;
        self.paste_burst.clear_after_explicit_paste();
        true
    }

    /// Adds to what is searched for. Returns whether a search is under way.
    pub fn extend_search(&mut self, text: &str) -> (res: bool)
        ensures
            res == (old(self)@.search is Some),
            match old(self)@.search {
                Some(s) => final(self)@ == old(self)@.search_changed(s.query + text@),
                None => *final(self) == *old(self),
            },
    {
        match self.composer_history_search.take() {
            Some(search) => {
                let mut query = search.query;
                query.append(text);
                self.composer_history_search = Some(
                    ComposerHistorySearch {
                        pre_search_input: search.pre_search_input,
                        pre_search_cursor: search.pre_search_cursor,
                        query,
                        selected: 0,
                    },
                );
                true
            },
            None => false,
        }
    }

    /// Takes back the last character searched for. Returns whether a search is
    /// under way.
    pub fn shorten_search(&mut self) -> (res: bool)
        ensures
            res == (old(self)@.search is Some),
            match old(self)@.search {
                Some(s) => final(self)@ == old(self)@.search_changed(
                    if s.query.len() == 0 {
                        s.query
                    } else {
                        s.query.drop_last()
                    },
                ),
                None => *final(self) == *old(self),
            },
    {
        match self.composer_history_search.take() {
            Some(search) => {
                let count = char_count(search.query.as_str());
                let query = if count == 0 {
                    search.query
                } else {
                    let text = search.query.as_str().substring_char(0, count - 1).to_owned();
                    proof { assert(text@ =~= search.query@.drop_last()); }
                    text
                };
                self.composer_history_search = Some(
                    ComposerHistorySearch {
                        pre_search_input: search.pre_search_input,
                        pre_search_cursor: search.pre_search_cursor,
                        query,
                        selected: 0,
                    },
                );
                true
            },
            None => false,
        }
    }

    /// Selects another match of the search under way.
    pub fn select_match(&mut self, selected: usize)
        ensures
            final(self)@ == old(self)@.search_selected(selected as int),
    {
        match self.composer_history_search.take() {
            Some(search) => {
                self.composer_history_search = Some(
                    ComposerHistorySearch {
                        pre_search_input: search.pre_search_input,
                        pre_search_cursor: search.pre_search_cursor,
                        query: search.query,
                        selected,
                    },
                );
            },
            None => {},
        }
    }

    /// Ends a search with its selected match. Returns whether there was one.
    pub fn accept_history_search(&mut self) -> (res: bool)
        ensures
            final(self)@ == old(self)@.search_accepted(),
            res == old(self)@.search_succeeds(),
    {
        let (query, selected) = match &self.composer_history_search {
            Some(search) => (search.query.clone(), search.selected),
            None => return false,
        };
        let matches = self.history_search_matches_for_query(query.as_str());
        if matches.len() == 0 {
            proof { assert(texts(matches@).len() == 0); }
            return false;
        }
        let last: usize = matches.len() - 1;
        let index: usize = if selected < last {
            selected
        } else {
            last
        };
        let text = matches[index].clone();
        proof {
            assert(texts(matches@).len() == matches@.len());
            assert(text@ == texts(matches@)[index as int]);
        }
        self.composer_history_search = None;
        self.input = text;
        self.cursor_position = char_count(self.input.as_str());
        self.history_index = None;
        true
    }

    /// Ends a search and restores the draft it started from. Returns whether
    /// one was under way.
    pub fn cancel_history_search(&mut self) -> (res: bool)
        ensures
            final(self)@ == old(self)@.search_canceled(),
            res == (old(self)@.search is Some),
    {
        match self.composer_history_search.take() {
            Some(search) => {
                let count = char_count(search.pre_search_input.as_str());
                self.input = search.pre_search_input;
                self.cursor_position = if search.pre_search_cursor < count {
                    search.pre_search_cursor
                } else {
                    count
                };
                true
            },
            None => false,
        }
    }

    /// Records the input as an earlier one, empties the composer and hands the
    /// input over.
    pub fn submit(&mut self, max_input_history: usize) -> (res: String)
        ensures
            final(self)@ == old(self)@.submitted(max_input_history as nat),
            res@ == old(self)@.input,
    {
        let input = self.input.clone();
        if !starts_with(input.as_str(), "/") {
            let item = input.clone();
            proof { lemma_texts_push(self.input_history@, item); }
            self.input_history.push(item);
            let ghost full = self.input_history@;
            let total: usize = self.input_history.len();
            if total > max_input_history {
                let rest = self.input_history.split_off(total - max_input_history);
                self.input_history = rest;
            }
            proof {
                assert(texts(self.input_history@) =~= last_of(
                    texts(full),
                    max_input_history as int,
                ));
            }
        }
        self.clear_input();
        input
    }
}

/// Whether a text that is `lower` in lower case holds the lowercase text
/// `needle`.
pub fn lowercase_matches(candidate: &str, lower: &str, needle: &str) -> (res: bool)
    ensures
        res == holds_lowercase(candidate@, lower@, needle@),
{
    !is_blank(candidate) && (needle.is_empty() || contains(lower, needle))
}

fn add_match(found: &mut Vec<String>, candidate: &String, query: &str, needle: &str)
    requires
        needle@ == unicode_lowercase(trimmed(query@)),
    ensures
        texts(final(found)@) == (if search_matches(candidate@, query@) {
            with_new(texts(old(found)@), candidate@)
        } else {
            texts(old(found)@)
        }),
{
    if list_has(found, candidate.as_str()) {
        return;
    }
    let lower = to_lowercase(candidate.as_str());
    if lowercase_matches(candidate.as_str(), lower.as_str(), needle) {
        let item = candidate.clone();
        proof { lemma_texts_push(found@, item); }
        found.push(item);
    }
}

} // verus!
