//! How settings are read, and what the screen shows of the transcript.

use vstd::prelude::*;

use crate::text::{ascii_lowercase, is_whitespace, trimmed};
use crate::text_laws::{all_blank, trimming_takes_outer_blanks};
use crate::tui::settings::{
    first_onboarding_state, is_trust_gate, setting_name, ApiProvider, AppMode, ApprovalMode,
    ComposerDensity, CostCurrency, OnboardingState, ReasoningEffort, SidebarFocus,
    TranscriptSpacing,
};
use crate::tui::viewport::{SelectionPoint, TranscriptScroll, TranscriptSelection, ViewportState};

verus! {

// ---------------------------------------------------------------------------
// Names
// ---------------------------------------------------------------------------

/// A name in small letters, without blanks.
pub open spec fn is_plain_name(name: Seq<char>) -> bool {
    &&& name.len() > 0
    &&& forall|i: int|
        0 <= i < name.len() ==> !is_whitespace(#[trigger] name[i]) && !('A' <= name[i] <= 'Z')
}

/// A name is read as it is, however it is capitalized and whatever blanks stand
/// around it.
pub proof fn names_are_read_in_any_case(
    before: Seq<char>,
    written: Seq<char>,
    behind: Seq<char>,
    name: Seq<char>,
)
    requires
        all_blank(before),
        all_blank(behind),
        is_plain_name(name),
        ascii_lowercase(written) == name,
    ensures
        setting_name(before + written + behind) == name,
{
    let s = before + written + behind;
    trimming_takes_outer_blanks(s);
    let (x, y) = choose|x: Seq<char>, y: Seq<char>|
        s == #[trigger] (x + trimmed(s) + y) && all_blank(x) && all_blank(y);
    let n = written.len() as int;
    let p = before.len() as int;
    assert forall|i: int| 0 <= i < n implies !is_whitespace(#[trigger] written[i]) by {
        assert(name[i] == ascii_lowercase(written)[i]);
        assert(!is_whitespace(name[i]));
        if is_whitespace(written[i]) {
            assert(ascii_lowercase(written)[i] == written[i]);
        }
    }
    assert(s[p] == written[0]);
    assert(s[p + n - 1] == written[n - 1]);
    assert(trimmed(s).len() > 0) by {
        if trimmed(s).len() == 0 {
            assert(all_blank(s));
            assert(is_whitespace(s[p]));
        }
    }
    let q = x.len() as int;
    let t = trimmed(s);
    assert(s[q] == t[0]);
    assert(q == p) by {
        if q < p {
            assert(before[q] == s[q]);
        } else if q > p {
            assert(x[p] == s[p]);
        }
    }
    let e = q + t.len();
    assert(s[e - 1] == t.last());
    assert(e == p + n) by {
        if e < p + n {
            assert(y[p + n - 1 - e] == s[p + n - 1]);
        } else if e > p + n {
            assert(behind[e - 1 - p - n] == s[e - 1]);
        }
    }
    assert(t =~= written) by {
        assert(t =~= s.subrange(q, e));
        assert(written =~= s.subrange(p, p + n));
    }
}

proof fn lemma_plain(name: Seq<char>)
    requires
        is_plain_name(name),
    ensures
        setting_name(name) == name,
{
    let none = Seq::<char>::empty();
    assert(none + name + none =~= name);
    assert(ascii_lowercase(name) =~= name);
    names_are_read_in_any_case(none, name, none, name);
}

/// Two values that are read as the same name set the same.
pub proof fn same_names_set_the_same(a: Seq<char>, b: Seq<char>)
    requires
        setting_name(a) == setting_name(b),
    ensures
        AppMode::named(a) == AppMode::named(b),
        ApprovalMode::named(a) == ApprovalMode::named(b),
        ReasoningEffort::named(a) == ReasoningEffort::named(b),
        ApiProvider::named(a) == ApiProvider::named(b),
        CostCurrency::named(a) == CostCurrency::named(b),
        ComposerDensity::named(a) == ComposerDensity::named(b),
        TranscriptSpacing::named(a) == TranscriptSpacing::named(b),
        SidebarFocus::named(a) == SidebarFocus::named(b),
{
}

/// Every effort is found by its short name.
pub proof fn efforts_are_found_by_name(effort: ReasoningEffort)
    ensures
        ReasoningEffort::named(effort.name()) == effort,
{
    reveal_strlit("off");
    reveal_strlit("low");
    reveal_strlit("medium");
    reveal_strlit("high");
    reveal_strlit("auto");
    reveal_strlit("max");
    assert(is_plain_name(effort.name()));
    lemma_plain(effort.name());
    let name = effort.name();
    assert("off"@[0] == 'o' && "low"@[0] == 'l' && "medium"@.len() == 6 && "high"@[0] == 'h'
        && "auto"@[0] == 'a' && "max"@[0] == 'm' && "max"@.len() == 3);
}

/// Every provider is found by its name.
pub proof fn providers_are_found_by_name(provider: ApiProvider)
    ensures
        ApiProvider::named(provider.name()) == Some(provider),
{
    reveal_strlit("deepseek");
    reveal_strlit("deepseek-cn");
    reveal_strlit("nvidia-nim");
    reveal_strlit("openai");
    reveal_strlit("openrouter");
    reveal_strlit("novita");
    assert(is_plain_name(provider.name()));
    lemma_plain(provider.name());
    assert("deepseek"@.len() == 8 && "deepseek-cn"@.len() == 11 && "nvidia-nim"@[1] == 'v'
        && "openai"@[0] == 'o' && "openai"@.len() == 6 && "openrouter"@[1] == 'p'
        && "openrouter"@.len() == 10 && "novita"@[0] == 'n' && "novita"@.len() == 6);
}

/// A mode is found by the name that is shown for it.
pub proof fn modes_are_found_by_name(mode: AppMode)
    ensures
        AppMode::named(mode.name()) == mode,
{
    reveal_strlit("AGENT");
    reveal_strlit("YOLO");
    reveal_strlit("PLAN");
    reveal_strlit("agent");
    reveal_strlit("yolo");
    reveal_strlit("plan");
    let none = Seq::<char>::empty();
    let small = match mode {
        AppMode::Agent => "agent"@,
        AppMode::Yolo => "yolo"@,
        AppMode::Plan => "plan"@,
    };
    assert(ascii_lowercase(mode.name()) =~= small);
    assert(is_plain_name(small));
    assert(none + mode.name() + none =~= mode.name());
    names_are_read_in_any_case(none, mode.name(), none, small);
    assert("agent"@.len() == 5 && "yolo"@[0] == 'y' && "plan"@[0] == 'p');
}

/// A blank setting sets what is set without one.
pub proof fn blank_settings_set_nothing(value: Seq<char>)
    requires
        all_blank(value),
    ensures
        AppMode::named(value) == AppMode::Agent,
        ApprovalMode::named(value) is None,
        ReasoningEffort::named(value) == ReasoningEffort::Max,
        ApiProvider::named(value) is None,
        CostCurrency::named(value) == CostCurrency::Usd,
        ComposerDensity::named(value) == ComposerDensity::Comfortable,
        TranscriptSpacing::named(value) == TranscriptSpacing::Comfortable,
        SidebarFocus::named(value) == SidebarFocus::Auto,
{
    trimming_takes_outer_blanks(value);
    let name = setting_name(value);
    assert(name.len() == 0);
    reveal_strlit("off");
    reveal_strlit("low");
    reveal_strlit("medium");
    reveal_strlit("high");
    reveal_strlit("auto");
    reveal_strlit("plan");
    reveal_strlit("yolo");
    reveal_strlit("suggest");
    reveal_strlit("never");
    reveal_strlit("deepseek");
    reveal_strlit("deepseek-cn");
    reveal_strlit("nvidia-nim");
    reveal_strlit("openai");
    reveal_strlit("openrouter");
    reveal_strlit("novita");
    reveal_strlit("cny");
    reveal_strlit("compact");
    reveal_strlit("spacious");
    reveal_strlit("todos");
    reveal_strlit("tasks");
    reveal_strlit("agents");
    reveal_strlit("context");
    assert("off"@.len() == 3 && "low"@.len() == 3 && "medium"@.len() == 6 && "high"@.len() == 4);
    assert("auto"@.len() == 4 && "plan"@.len() == 4 && "yolo"@.len() == 4);
    assert("suggest"@.len() == 7 && "never"@.len() == 5 && "cny"@.len() == 3);
    assert("deepseek"@.len() == 8 && "deepseek-cn"@.len() == 11 && "nvidia-nim"@.len() == 10);
    assert("openai"@.len() == 6 && "openrouter"@.len() == 10 && "novita"@.len() == 6);
    assert("compact"@.len() == 7 && "spacious"@.len() == 8 && "todos"@.len() == 5);
    assert("tasks"@.len() == 5 && "agents"@.len() == 6 && "context"@.len() == 7);
}

// ---------------------------------------------------------------------------
// The first run
// ---------------------------------------------------------------------------

/// The dialogue welcomes whoever was not through it or has no key, asks the
/// others for trust only where that is missing, and is left out where it is
/// skipped or nothing is missing.
pub proof fn the_dialogue_asks_for_what_is_missing(
    skip: bool,
    was_onboarded: bool,
    needs_key: bool,
    needs_trust: bool,
)
    ensures
        skip ==> first_onboarding_state(skip, was_onboarded, needs_key, needs_trust)
            == OnboardingState::Finished,
        was_onboarded && !needs_key && !needs_trust ==> first_onboarding_state(
            skip,
            was_onboarded,
            needs_key,
            needs_trust,
        ) == OnboardingState::Finished,
        first_onboarding_state(false, false, needs_key, needs_trust) == OnboardingState::Welcome,
        first_onboarding_state(false, was_onboarded, true, needs_trust) == OnboardingState::Welcome,
        first_onboarding_state(false, true, false, true) == OnboardingState::TrustDirectory,
        is_trust_gate(skip, was_onboarded, needs_key, needs_trust) == (first_onboarding_state(
            skip,
            was_onboarded,
            needs_key,
            needs_trust,
        ) == OnboardingState::TrustDirectory),
{
}

// ---------------------------------------------------------------------------
// The screen
// ---------------------------------------------------------------------------

/// A selection is the same from either end, and its first end is the one on the
/// earlier line, or on the same line in the earlier column.
pub proof fn selections_are_the_same_from_either_end(
    a: SelectionPoint,
    b: SelectionPoint,
    selection: TranscriptSelection,
    reversed: TranscriptSelection,
)
    requires
        selection.anchor == Some(a),
        selection.head == Some(b),
        reversed.anchor == Some(b),
        reversed.head == Some(a),
    ensures
        selection.ends() == reversed.ends(),
        selection.ends() matches Some((first, last)) && (first.line_index < last.line_index || (
        first.line_index == last.line_index && first.column <= last.column)) && (first == a && last
            == b || first == b && last == a),
        selection.has_range() == (a != b),
{
}

/// A selection without one of its ends selects nothing.
pub proof fn half_selections_select_nothing(selection: TranscriptSelection)
    requires
        selection.anchor is None || selection.head is None,
    ensures
        selection.ends() is None,
        !selection.has_range(),
        TranscriptSelection::nothing().anchor is None,
        TranscriptSelection::nothing().head is None,
        !TranscriptSelection::nothing().dragging,
{
}

/// The transcript follows its end unless it is scrolled away or something is
/// selected or being selected; scrolling to the end keeps what is selected.
pub proof fn the_end_is_followed_unless_held(view: ViewportState, line: usize)
    ensures
        view.transcript_scroll == (TranscriptScroll::From { line }) ==> !view.follows_tail(),
        view.transcript_selection.dragging ==> !view.follows_tail(),
        view.transcript_selection.has_range() ==> !view.follows_tail(),
        !view.transcript_selection.dragging && !view.transcript_selection.has_range()
            ==> view.at_bottom().follows_tail(),
        view.at_bottom().transcript_selection == view.transcript_selection,
        view.at_bottom().pending_scroll_delta == 0,
        view.at_bottom().jump_to_latest_button_area is None,
{
}

} // verus!
