//! What recalling and searching earlier inputs comes to.

use vstd::prelude::*;

use crate::compaction::extraction::with_new;
use crate::text::{contains_text, has_prefix, trimmed, unicode_lowercase};
use crate::tui::composer::{ComposerModel, DraftModel, MAX_DRAFT_HISTORY};
use crate::tui::recall::{
    last_of, recorded, remembered, search_matches, with_matches, without_returns, without_text,
};

verus! {

// ---------------------------------------------------------------------------
// Up and down
// ---------------------------------------------------------------------------

/// The composer after `k` times up.
pub open spec fn up_times(m: ComposerModel, k: nat) -> ComposerModel
    decreases k,
{
    if k == 0 {
        m
    } else {
        up_times(m, (k - 1) as nat).recalled_up()
    }
}

/// The composer after `k` times down.
pub open spec fn down_times(m: ComposerModel, k: nat) -> ComposerModel
    decreases k,
{
    if k == 0 {
        m
    } else {
        down_times(m, (k - 1) as nat).recalled_down()
    }
}

/// While an earlier input is shown, going up shows the one before it. The
/// oldest one stays.
pub proof fn up_shows_the_input_before(m: ComposerModel, i: usize)
    requires
        m.history_index == Some(i),
        i < m.input_history.len(),
    ensures
        i > 0 ==> m.recalled_up().input == m.input_history[i - 1] && m.recalled_up().history_index
            == Some((i - 1) as usize),
        i == 0 ==> m.recalled_up().input == m.input_history[0] && m.recalled_up().history_index
            == Some(0usize),
        m.recalled_up().cursor == m.recalled_up().input.len(),
        m.recalled_up().navigation_draft == m.navigation_draft,
{
}

/// While an earlier input is shown that is not the latest, going down shows the
/// one behind it.
pub proof fn down_shows_the_input_behind(m: ComposerModel, i: usize)
    requires
        m.history_index == Some(i),
        i + 1 < m.input_history.len(),
        m.input_history.len() <= usize::MAX,
    ensures
        m.recalled_down().input == m.input_history[i + 1],
        m.recalled_down().history_index == Some((i + 1) as usize),
        m.recalled_down().cursor == m.recalled_down().input.len(),
        m.recalled_down().navigation_draft == m.navigation_draft,
{
}

/// From the draft, `k` times up shows the `k`-th latest input, and the draft is
/// set aside.
pub proof fn ups_count_back_from_the_draft(m: ComposerModel, k: nat)
    requires
        m.history_index is None,
        1 <= k <= m.input_history.len() <= usize::MAX,
    ensures
        up_times(m, k).input == m.input_history[m.input_history.len() - k],
        up_times(m, k).history_index == Some((m.input_history.len() - k) as usize),
        up_times(m, k).navigation_draft == Some(DraftModel { input: m.input, cursor: m.cursor }),
        up_times(m, k).input_history == m.input_history,
    decreases k,
{
    if k > 1 {
        ups_count_back_from_the_draft(m, (k - 1) as nat);
    } else {
        assert(up_times(m, 0) == m);
    }
}

/// Beyond the oldest input, going up shows it again.
pub proof fn ups_end_at_the_oldest_input(m: ComposerModel, k: nat)
    requires
        m.history_index is None,
        m.input_history.len() > 0,
        m.input_history.len() <= usize::MAX,
        k >= m.input_history.len(),
    ensures
        up_times(m, k).input == m.input_history[0],
        up_times(m, k).history_index == Some(0usize),
        up_times(m, k).input_history == m.input_history,
    decreases k,
{
    if k > m.input_history.len() {
        ups_end_at_the_oldest_input(m, (k - 1) as nat);
    } else {
        ups_count_back_from_the_draft(m, k);
    }
}

/// Going down undoes going up from every input that is shown but the oldest.
pub proof fn down_undoes_up_everywhere(m: ComposerModel, i: usize)
    requires
        m.history_index == Some(i),
        0 < i < m.input_history.len(),
        m.input_history.len() <= usize::MAX,
        m.input == m.input_history[i as int],
    ensures
        m.recalled_up().recalled_down().input == m.input,
        m.recalled_up().recalled_down().history_index == m.history_index,
        m.recalled_up().recalled_down().navigation_draft == m.navigation_draft,
{
}

/// As many times down as up restores the draft and its cursor.
pub proof fn downs_undo_ups(m: ComposerModel, k: nat)
    requires
        m.history_index is None,
        1 <= k <= m.input_history.len() <= usize::MAX,
        0 <= m.cursor <= m.input.len(),
    ensures
        down_times(up_times(m, k), k).input == m.input,
        down_times(up_times(m, k), k).cursor == m.cursor,
        down_times(up_times(m, k), k).history_index is None,
{
    ups_count_back_from_the_draft(m, k);
    lemma_downs(m, up_times(m, k), (k - 1) as nat, k);
}

proof fn lemma_downs(m: ComposerModel, top: ComposerModel, d: nat, k: nat)
    requires
        m.history_index is None,
        1 <= k <= m.input_history.len() <= usize::MAX,
        d < k,
        top == up_times(m, k),
    ensures
        down_times(top, d).history_index == Some((m.input_history.len() - k + d) as usize),
        down_times(top, d).navigation_draft == Some(
            DraftModel { input: m.input, cursor: m.cursor },
        ),
        down_times(top, d).input_history == m.input_history,
    decreases d,
{
    ups_count_back_from_the_draft(m, k);
    if d > 0 {
        lemma_downs(m, top, (d - 1) as nat, k);
    }
}

/// Without earlier inputs, neither direction changes anything; and from the
/// draft, going down does not.
pub proof fn nothing_to_recall(m: ComposerModel)
    ensures
        m.input_history.len() == 0 ==> m.recalled_up() == m && m.recalled_down() == m,
        m.history_index is None ==> m.recalled_down() == m,
{
}

/// Recalling changes neither the earlier inputs nor the recovered drafts nor
/// the kill buffer.
pub proof fn recalling_keeps_what_is_kept(m: ComposerModel)
    ensures
        m.recalled_up().input_history == m.input_history,
        m.recalled_up().draft_history == m.draft_history,
        m.recalled_up().kill_buffer == m.kill_buffer,
        m.recalled_down().input_history == m.input_history,
        m.recalled_down().draft_history == m.draft_history,
        m.recalled_down().kill_buffer == m.kill_buffer,
        m.search_accepted().input_history == m.input_history,
        m.search_accepted().draft_history == m.draft_history,
        m.search_canceled().input_history == m.input_history,
        m.search_canceled().draft_history == m.draft_history,
{
}

// ---------------------------------------------------------------------------
// Recording
// ---------------------------------------------------------------------------

/// A submitted input that is no command becomes the latest earlier input. The
/// others stay in their order; beyond the limit the oldest ones give way.
pub proof fn submitted_inputs_become_the_latest(
    history: Seq<Seq<char>>,
    input: Seq<char>,
    limit: nat,
    i: int,
)
    requires
        input.len() == 0 || input[0] != '/',
        0 < limit,
        0 <= i < recorded(history, input, limit).len() - 1,
    ensures
        recorded(history, input, limit).last() == input,
        recorded(history, input, limit)[i] == history[history.len() + 1 - recorded(
            history,
            input,
            limit,
        ).len() + i],
        recorded(history, input, limit).len() == limit || recorded(history, input, limit).len()
            == history.len() + 1,
        recorded(history, input, limit).len() <= limit,
{
    lemma_is_command(input);
}

proof fn lemma_is_command(input: Seq<char>)
    ensures
        has_prefix(input, "/"@) == (input.len() > 0 && input[0] == '/'),
{
    reveal_strlit("/");
    if input.len() > 0 {
        assert(input.subrange(0, 1) =~= seq![input[0]]);
        assert("/"@ =~= seq!['/']);
        assert(seq![input[0]][0] == input[0]);
        assert(seq!['/'][0] == '/');
    }
}

/// The latest earlier input is the one submitted last, and a command leaves
/// them as they are.
pub proof fn commands_are_not_recorded(history: Seq<Seq<char>>, input: Seq<char>, limit: nat)
    ensures
        input.len() > 0 && input[0] == '/' ==> recorded(history, input, limit) == history,
        (input.len() == 0 || input[0] != '/') && limit > 0 ==> recorded(history, input, limit).len()
            > 0 && recorded(history, input, limit).last() == input,
        (input.len() == 0 || input[0] != '/') && limit == 0 ==> recorded(
            history,
            input,
            limit,
        ).len() == 0,
{
    lemma_is_command(input);
}

/// What was submitted is what going up shows first, and the composer is empty
/// until then.
pub proof fn up_shows_what_was_submitted(m: ComposerModel, limit: nat)
    requires
        limit > 0,
        m.input.len() == 0 || m.input[0] != '/',
        m.input_history.len() < usize::MAX,
    ensures
        m.submitted(limit).input.len() == 0,
        m.submitted(limit).cursor == 0,
        m.submitted(limit).recalled_up().input == m.input,
{
    commands_are_not_recorded(m.input_history, m.input, limit);
}

proof fn lemma_without_text(list: Seq<Seq<char>>, item: Seq<char>)
    ensures
        !without_text(list, item).contains(item),
        without_text(list, item).len() <= list.len(),
        forall|x: Seq<char>|
            x != item ==> #[trigger] without_text(list, item).contains(x) == list.contains(x),
        list.contains(item) ==> without_text(list, item).len() < list.len(),
        list.no_duplicates() ==> without_text(list, item).no_duplicates(),
    decreases list.len(),
{
    if list.len() > 0 {
        let front = list.drop_last();
        lemma_without_text(front, item);
        assert(list =~= front.push(list.last()));
        assert forall|x: Seq<char>| list.contains(x) == (front.contains(x) || x == list.last()) by {
            if front.contains(x) {
                let k = choose|k: int| 0 <= k < front.len() && front[k] == x;
                assert(list[k] == x);
            }
            if x == list.last() {
                assert(list[list.len() - 1] == x);
            }
            if list.contains(x) {
                let k = choose|k: int| 0 <= k < list.len() && list[k] == x;
                if k < front.len() {
                    assert(front[k] == x);
                }
            }
        }
        let out = without_text(list, item);
        let rest = without_text(front, item);
        if list.last() != item {
            assert forall|x: Seq<char>| out.contains(x) == (rest.contains(x) || x == list.last()) by {
                if rest.contains(x) {
                    let k = choose|k: int| 0 <= k < rest.len() && rest[k] == x;
                    assert(out[k] == x);
                }
                if x == list.last() {
                    assert(out[out.len() - 1] == x);
                }
                if out.contains(x) {
                    let k = choose|k: int| 0 <= k < out.len() && out[k] == x;
                    if k < rest.len() {
                        assert(rest[k] == x);
                    }
                }
            }
        }
        if list.no_duplicates() {
            assert(front.no_duplicates());
            assert(!front.contains(list.last())) by {
                if front.contains(list.last()) {
                    let k = choose|k: int| 0 <= k < front.len() && front[k] == list.last();
                    assert(list[k] == list[list.len() - 1]);
                }
            }
            if list.last() != item {
                assert(!rest.contains(list.last()));
                assert forall|i: int, j: int| 0 <= i < out.len() && 0 <= j < out.len() && i
                    != j implies out[i] != out[j] by {
                    if i == rest.len() {
                        assert(rest.contains(out[j]));
                    } else if j == rest.len() {
                        assert(rest.contains(out[i]));
                    }
                }
            }
        }
    }
}

/// A draft that is set aside is the latest one and comes once. As long as there
/// is room, every other draft is still there.
pub proof fn drafts_are_remembered_once(
    drafts: Seq<Seq<char>>,
    draft: Seq<char>,
    other: Seq<char>,
)
    requires
        trimmed(draft).len() > 0,
        drafts.no_duplicates(),
        drafts.len() <= MAX_DRAFT_HISTORY,
    ensures
        remembered(drafts, draft).no_duplicates(),
        remembered(drafts, draft).contains(draft),
        other != draft && (drafts.len() < MAX_DRAFT_HISTORY || drafts.contains(draft))
            ==> remembered(drafts, draft).contains(other) == drafts.contains(other),
        remembered(drafts, draft).contains(other) ==> other == draft || drafts.contains(other),
{
    lemma_without_text(drafts, draft);
    let rest = without_text(drafts, draft);
    let full = rest.push(draft);
    let out = last_of(full, MAX_DRAFT_HISTORY as int);
    assert(out[out.len() - 1] == draft);
    assert(full.no_duplicates()) by {
        assert forall|i: int, j: int| 0 <= i < j < full.len() implies full[i] != full[j] by {
            if j == rest.len() {
                assert(rest.contains(full[i]));
            }
        }
    }
    if full.len() > MAX_DRAFT_HISTORY {
        assert forall|i: int, j: int| 0 <= i < j < out.len() implies out[i] != out[j] by {
            let d = full.len() - out.len();
            assert(out[i] == full[i + d] && out[j] == full[j + d]);
        }
    }
    if out.contains(other) && other != draft {
        let k = choose|k: int| 0 <= k < out.len() && out[k] == other;
        let d = full.len() - out.len();
        assert(full[k + d] == other);
        assert(rest[k + d] == other);
        assert(rest.contains(other));
    }
    if other != draft && drafts.contains(other) && full.len() <= MAX_DRAFT_HISTORY {
        assert(rest.contains(other));
        let k = choose|k: int| 0 <= k < rest.len() && rest[k] == other;
        assert(out[k] == other);
    }
}

/// A blank draft is not remembered.
pub proof fn blank_drafts_are_forgotten(drafts: Seq<Seq<char>>, draft: Seq<char>)
    requires
        trimmed(draft).len() == 0,
    ensures
        remembered(drafts, draft) == drafts,
{
}

/// Normalizing a pasted text takes away its carriage returns and nothing else.
pub proof fn normalizing_takes_returns_only(a: Seq<char>, c: char, b: Seq<char>)
    ensures
        c != '\r' ==> without_returns(a.push(c) + b) == without_returns(a).push(c) + without_returns(
            b,
        ),
        without_returns(a.push('\r') + b) == without_returns(a) + without_returns(b),
        without_returns(Seq::<char>::empty()).len() == 0,
    decreases b.len(),
{
    if b.len() == 0 {
        assert(a.push(c) + b =~= a.push(c));
        assert(a.push('\r') + b =~= a.push('\r'));
        assert(a.push(c).drop_last() =~= a);
        assert(a.push('\r').drop_last() =~= a);
        assert(without_returns(a).push(c) + without_returns(b) =~= without_returns(a).push(c));
        assert(without_returns(a) + without_returns(b) =~= without_returns(a));
    } else {
        normalizing_takes_returns_only(a, c, b.drop_last());
        assert((a.push(c) + b).drop_last() =~= a.push(c) + b.drop_last());
        assert((a.push('\r') + b).drop_last() =~= a.push('\r') + b.drop_last());
        if b.last() != '\r' {
            let front = without_returns(b.drop_last());
            assert((without_returns(a).push(c) + front).push(b.last()) =~= without_returns(
                a,
            ).push(c) + front.push(b.last()));
            assert((without_returns(a) + front).push(b.last()) =~= without_returns(a) + front.push(
                b.last(),
            ));
        }
    }
}

// ---------------------------------------------------------------------------
// Searching
// ---------------------------------------------------------------------------

/// A text is found exactly where it is not blank and its lowercase form holds
/// the lowercase form of what is searched for, without the blanks around it.
pub proof fn searching_ignores_case_and_blanks(
    candidate: Seq<char>,
    query: Seq<char>,
    before: Seq<char>,
    behind: Seq<char>,
)
    ensures
        trimmed(candidate).len() > 0 && unicode_lowercase(candidate) == before + unicode_lowercase(
            trimmed(query),
        ) + behind ==> search_matches(candidate, query),
        search_matches(candidate, query) ==> trimmed(candidate).len() > 0 && (unicode_lowercase(
            trimmed(query),
        ).len() == 0 || contains_text(
            unicode_lowercase(candidate),
            unicode_lowercase(trimmed(query)),
        )),
{
    let needle = unicode_lowercase(trimmed(query));
    let all = before + needle + behind;
    assert(all.subrange(before.len() as int, (before.len() + needle.len()) as int) =~= needle);
    if unicode_lowercase(candidate) == all {
        assert(crate::text::occurs_at(all, needle, before.len() as int));
    }
}

proof fn lemma_found_stays(
    found: Seq<Seq<char>>,
    list: Seq<Seq<char>>,
    query: Seq<char>,
    n: int,
)
    ensures
        with_matches(found, list, query, n).len() >= found.len(),
        forall|k: int|
            0 <= k < found.len() ==> with_matches(found, list, query, n)[k] == #[trigger] found[k],
    decreases n,
{
    if n > 0 {
        lemma_found_stays(found, list, query, n - 1);
    }
}

/// The composer without earlier inputs.
pub open spec fn without_inputs(m: ComposerModel) -> ComposerModel {
    ComposerModel { input_history: Seq::empty(), ..m }
}

/// Recovered drafts come before earlier inputs: what a search finds among the
/// drafts alone stands at the head of all that it finds.
pub proof fn drafts_are_found_first(m: ComposerModel, query: Seq<char>, k: int)
    requires
        0 <= k < without_inputs(m).matches_for(query).len(),
    ensures
        k < m.matches_for(query).len(),
        m.matches_for(query)[k] == without_inputs(m).matches_for(query)[k],
        m.draft_history.contains(m.matches_for(query)[k]),
{
    let drafts = with_matches(
        Seq::empty(),
        m.draft_history,
        query,
        m.draft_history.len() as int,
    );
    lemma_found_stays(drafts, m.input_history, query, m.input_history.len() as int);
    lemma_found_is_listed(Seq::empty(), m.draft_history, query, m.draft_history.len() as int, k);
}

proof fn lemma_found_is_listed(
    found: Seq<Seq<char>>,
    list: Seq<Seq<char>>,
    query: Seq<char>,
    n: int,
    k: int,
)
    requires
        0 <= n <= list.len(),
        found.len() <= k < with_matches(found, list, query, n).len(),
    ensures
        list.contains(with_matches(found, list, query, n)[k]),
    decreases n,
{
    if n > 0 {
        let rest = with_matches(found, list, query, n - 1);
        if k < rest.len() {
            lemma_found_is_listed(found, list, query, n - 1, k);
        } else {
            assert(list[list.len() - n] == with_matches(found, list, query, n)[k]);
        }
    }
}

/// The latest one is found first: where the latest draft matches it heads the
/// matches, and without drafts the latest input does.
pub proof fn the_latest_is_found_first(m: ComposerModel, query: Seq<char>)
    ensures
        m.draft_history.len() > 0 && search_matches(m.draft_history.last(), query)
            ==> m.matches_for(query).len() > 0 && m.matches_for(query)[0] == m.draft_history.last(),
        m.draft_history.len() == 0 && m.input_history.len() > 0 && search_matches(
            m.input_history.last(),
            query,
        ) ==> m.matches_for(query).len() > 0 && m.matches_for(query)[0] == m.input_history.last(),
{
    let drafts = with_matches(
        Seq::empty(),
        m.draft_history,
        query,
        m.draft_history.len() as int,
    );
    lemma_found_stays(drafts, m.input_history, query, m.input_history.len() as int);
    if m.draft_history.len() > 0 {
        lemma_first_found(m.draft_history, query, m.draft_history.len() as int);
    }
    if m.input_history.len() > 0 {
        lemma_first_found(m.input_history, query, m.input_history.len() as int);
    }
    if m.draft_history.len() == 0 {
        assert(drafts =~= Seq::empty());
    }
}

proof fn lemma_first_found(list: Seq<Seq<char>>, query: Seq<char>, n: int)
    requires
        1 <= n <= list.len(),
        list.len() > 0,
    ensures
        search_matches(list.last(), query) ==> with_matches(Seq::empty(), list, query, n).len() > 0
            && with_matches(Seq::empty(), list, query, n)[0] == list.last(),
    decreases n,
{
    if n > 1 {
        lemma_first_found(list, query, n - 1);
    } else {
        assert(with_matches(Seq::empty(), list, query, 0) =~= Seq::empty());
        assert(!Seq::<Seq<char>>::empty().contains(list.last()));
        assert(with_new(Seq::empty(), list.last()) =~= seq![list.last()]);
    }
}

/// A match that comes later among the earlier inputs is found before one that
/// comes earlier, where neither occurs again and there are no drafts.
pub proof fn later_inputs_are_found_before_earlier_ones(
    m: ComposerModel,
    query: Seq<char>,
    early: int,
    late: int,
)
    requires
        m.draft_history.len() == 0,
        m.input_history.no_duplicates(),
        0 <= early < late < m.input_history.len(),
        search_matches(m.input_history[early], query),
        search_matches(m.input_history[late], query),
    ensures
        exists|a: int, b: int|
            0 <= a < b < m.matches_for(query).len() && #[trigger] m.matches_for(query)[a]
                == m.input_history[late] && #[trigger] m.matches_for(query)[b]
                == m.input_history[early],
{
    let list = m.input_history;
    let n = list.len() as int;
    assert(with_matches(Seq::empty(), m.draft_history, query, 0) =~= Seq::empty());
    let upto_late = with_matches(Seq::empty(), list, query, n - late);
    let rest = with_matches(Seq::empty(), list, query, n - early - 1);
    let all = with_matches(Seq::empty(), list, query, n);
    lemma_holds_match(list, query, n - late);
    let a = choose|a: int| 0 <= a < upto_late.len() && upto_late[a] == list[late];
    lemma_matches_extend(list, query, n - late, n - early - 1);
    assert(rest[a] == list[late]);
    assert(!rest.contains(list[early])) by {
        if rest.contains(list[early]) {
            let k = choose|k: int| 0 <= k < rest.len() && rest[k] == list[early];
            lemma_found_in_tail(list, query, n - early - 1, k);
            let j = choose|j: int| early + 1 <= j < n && list[j] == rest[k];
            assert(list[j] == list[early]);
        }
    }
    let upto_early = with_matches(Seq::empty(), list, query, n - early);
    assert(upto_early == rest.push(list[early]));
    let b = rest.len() as int;
    assert(upto_early[b] == list[early]);
    lemma_matches_extend(list, query, n - early, n);
    lemma_matches_extend(list, query, n - early - 1, n);
    assert(all[a] == list[late]);
    assert(all[b] == list[early]);
    assert(m.matches_for(query) == all);
}

proof fn lemma_holds_match(list: Seq<Seq<char>>, query: Seq<char>, n: int)
    requires
        1 <= n <= list.len(),
        search_matches(list[list.len() - n], query),
    ensures
        with_matches(Seq::empty(), list, query, n).contains(list[list.len() - n]),
{
    let rest = with_matches(Seq::empty(), list, query, n - 1);
    let item = list[list.len() - n];
    if !rest.contains(item) {
        assert(rest.push(item)[rest.len() as int] == item);
    }
}

proof fn lemma_matches_extend(list: Seq<Seq<char>>, query: Seq<char>, few: int, many: int)
    requires
        0 <= few <= many,
    ensures
        with_matches(Seq::empty(), list, query, few).len() <= with_matches(
            Seq::empty(),
            list,
            query,
            many,
        ).len(),
        forall|k: int|
            0 <= k < with_matches(Seq::empty(), list, query, few).len() ==> with_matches(
                Seq::empty(),
                list,
                query,
                many,
            )[k] == #[trigger] with_matches(Seq::empty(), list, query, few)[k],
    decreases many - few,
{
    if few < many {
        lemma_matches_extend(list, query, few, many - 1);
    }
}

proof fn lemma_found_in_tail(list: Seq<Seq<char>>, query: Seq<char>, n: int, k: int)
    requires
        0 <= n <= list.len(),
        0 <= k < with_matches(Seq::empty(), list, query, n).len(),
    ensures
        exists|j: int|
            list.len() - n <= j < list.len() && #[trigger] list[j] == with_matches(
                Seq::empty(),
                list,
                query,
                n,
            )[k],
    decreases n,
{
    if n > 0 {
        let rest = with_matches(Seq::empty(), list, query, n - 1);
        if k < rest.len() {
            lemma_found_in_tail(list, query, n - 1, k);
        } else {
            assert(list[list.len() - n] == with_matches(Seq::empty(), list, query, n)[k]);
        }
    }
}

/// Accepting a search puts the selected match into the composer, with the cursor
/// behind it, and ends the search.
pub proof fn accepting_takes_the_selected_match(m: ComposerModel)
    requires
        m.search matches Some(s) && 0 <= s.selected < m.matches_for(s.query).len(),
    ensures
        m.search matches Some(s) && m.search_accepted().input == m.matches_for(s.query)[s.selected],
        m.search_accepted().cursor == m.search_accepted().input.len(),
        m.search_accepted().search is None,
        m.search_accepted().history_index is None,
{
}

/// A search that finds nothing goes on, with the draft as it was.
pub proof fn failed_searches_go_on(m: ComposerModel)
    requires
        m.search matches Some(s) && m.matches_for(s.query).len() == 0,
    ensures
        m.search_accepted() == m,
{
}

/// Typing into a search starts over at its first match, and leaves the input and
/// the draft to return to as they are.
pub proof fn typing_into_a_search_starts_over(m: ComposerModel, query: Seq<char>)
    requires
        m.search is Some,
    ensures
        m.search_changed(query).search matches Some(s) && s.query == query && s.selected == 0
            && s.pre_search_input == m.search->0.pre_search_input && s.pre_search_cursor
            == m.search->0.pre_search_cursor,
        m.search_changed(query).input == m.input,
        m.search_changed(query).cursor == m.cursor,
{
}

/// Going down brings the draft back exactly where it is said to: behind the last
/// of the inputs. Before that the next input is shown.
pub proof fn the_draft_comes_back_behind_the_last_input(m: ComposerModel, i: usize)
    requires
        m.history_index == Some(i),
    ensures
        m.input_history.len() == 0 ==> !m.restores_draft() && m.recalled_down() == m,
        m.input_history.len() > 0 && i + 1 < m.input_history.len() ==> !m.restores_draft()
            && m.recalled_down().history_index == Some((i + 1) as usize),
        m.input_history.len() > 0 && i + 1 >= m.input_history.len() ==> m.restores_draft()
            && m.recalled_down().history_index is None && m.recalled_down().navigation_draft
            is None,
{
}

/// What is recalled is shown whole, with the cursor behind it; nothing is
/// selected or held back, and the menu of commands is shown.
pub proof fn recalled_texts_are_shown_whole(m: ComposerModel, text: Seq<char>, cursor: int)
    ensures
        m.showing(text, cursor).input == text,
        m.showing(text, cursor).cursor == cursor,
        m.showing(text, cursor).selected_attachment is None,
        !m.showing(text, cursor).slash_menu_hidden,
        !m.showing(text, cursor).paste_burst.holds_text(),
        m.showing(text, cursor).kill_buffer == m.kill_buffer,
        m.input_history.len() > 0 && m.can_recall() ==> m.recalled_up().cursor
            == m.recalled_up().input.len() && !m.recalled_up().slash_menu_hidden,
{
}

/// A search starts from the draft, with nothing asked for and the first match
/// selected; the menus are hidden, and nothing is held back. A search under way
/// goes on.
pub proof fn searches_start_from_the_draft(m: ComposerModel)
    ensures
        m.search is Some ==> m.search_started() == m,
        m.search is None ==> {
            let r = m.search_started();
            &&& r.search matches Some(s) && s.pre_search_input == m.input && s.pre_search_cursor
                == m.cursor && s.query.len() == 0 && s.selected == 0
            &&& r.slash_menu_hidden && r.mention_menu_hidden
            &&& !r.paste_burst.holds_text()
            &&& r.input == m.input && r.cursor == m.cursor
            &&& r.input_history == m.input_history && r.draft_history == m.draft_history
        },
{
}

/// A search succeeds exactly where accepting it ends it.
pub proof fn searches_end_where_they_succeed(m: ComposerModel)
    ensures
        m.search is Some ==> m.search_succeeds() == (m.search_accepted().search is None),
        m.search is None ==> !m.search_succeeds() && m.search_accepted() == m,
        m.search_succeeds() ==> m.search_accepted().cursor == m.search_accepted().input.len(),
{
}

proof fn lemma_taken_out(list: Seq<Seq<char>>, item: Seq<char>)
    ensures
        without_text(list, item) == list.filter(|x: Seq<char>| x != item),
        !list.contains(item) ==> without_text(list, item) == list,
        list.contains(item) ==> without_text(list, item).len() < list.len(),
        without_text(list, item).len() <= list.len(),
    decreases list.len(),
{
    reveal(Seq::filter);
    if list.len() > 0 {
        let front = list.drop_last();
        lemma_taken_out(front, item);
        if list.contains(item) {
            let k = choose|k: int| 0 <= k < list.len() && list[k] == item;
            if k < front.len() {
                assert(front[k] == item);
            }
        } else {
            assert(list[list.len() - 1] != item);
            assert forall|k: int| 0 <= k < front.len() implies front[k] != item by {
                assert(front[k] == list[k]);
            }
            assert(without_text(list, item) =~= list);
        }
    } else {
        assert(without_text(list, item) =~= list);
        assert(list.filter(|x: Seq<char>| x != item) =~= list);
    }
}

/// A remembered draft comes behind the others, which keep their order, and
/// leaves its earlier place. Of more than fifty the oldest one leaves.
pub proof fn remembered_drafts_come_last(drafts: Seq<Seq<char>>, draft: Seq<char>)
    requires
        trimmed(draft).len() > 0,
        drafts.len() <= 50,
    ensures
        drafts.contains(draft) || drafts.len() < 50 ==> remembered(drafts, draft) == drafts.filter(
            |d: Seq<char>| d != draft,
        ).push(draft),
        !drafts.contains(draft) && drafts.len() < 50 ==> remembered(drafts, draft) == drafts.push(
            draft,
        ),
        !drafts.contains(draft) && drafts.len() == 50 ==> remembered(drafts, draft) == drafts.skip(
            1,
        ).push(draft),
{
    lemma_taken_out(drafts, draft);
    let all = without_text(drafts, draft).push(draft);
    if !drafts.contains(draft) && drafts.len() == 50 {
        assert(all.skip(1) =~= drafts.skip(1).push(draft));
    }
}

} // verus!
