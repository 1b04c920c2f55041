//! What pastes, submits, modes and the start of a session do, told from what was
//! typed, set and asked for.

use vstd::prelude::*;

use crate::text::{ascii_lowercase, decimal, has_prefix, is_control};
use crate::text_laws::{all_blank, decimals_are_read_back, number_of, trimming_takes_outer_blanks};
use crate::tui::app::pasting::{without_controls, OutcomeModel, PastedImage};
use crate::tui::app::session::{QUIT_CONFIRMATION_WINDOW_MS, TURN_CACHE_HISTORY_CAP};
use crate::tui::app::startup::{
    is_auto_model, startup_background, startup_composer, startup_input, startup_mode, startup_model,
    startup_provider, startup_skills_dir, startup_status_items,
};
use crate::tui::app::{App, ModelState, OnboardingFlow, PolicyState};
use crate::tui::cells::TurnCacheRecord;
use crate::tui::composer::{insertion_keeps_text, ComposerModel, VimMode};
use crate::tui::hooks::{effect_models, EffectModel};
use crate::tui::paste_file::paste_path;
use crate::tui::recall::{last_of, without_returns};
use crate::tui::setting_laws::{is_plain_name, names_are_read_in_any_case};
use crate::tui::settings::{
    ApiProvider, AppMode, ApprovalMode, Config, ReasoningEffort, Settings, Startup,
    SubmitDisposition, TuiOptions,
};
use crate::tui::status::StatusToastLevel;

verus! {

// ---------------------------------------------------------------------------
// Pastes
// ---------------------------------------------------------------------------

/// A paste goes in at the cursor, behind what was held back of an earlier one,
/// without carriage returns. The cursor moves behind it, and nothing is held
/// back any more.
pub proof fn pastes_go_in_behind_what_is_held(m: ComposerModel, text: Seq<char>)
    requires
        0 <= m.cursor <= m.input.len(),
    ensures
        ({
            let held = if m.paste_burst.active || m.paste_burst.buffer.len() > 0
                || m.paste_burst.pending_first_char is Some {
                match m.paste_burst.pending_first_char {
                    Some(c) => m.paste_burst.buffer.push(c),
                    None => m.paste_burst.buffer,
                }
            } else {
                Seq::empty()
            };
            let added = held + without_returns(text);
            let r = m.pasted(text);
            &&& r.input == m.input.take(m.cursor) + added + m.input.skip(m.cursor)
            &&& r.cursor == m.cursor + added.len()
            &&& !r.paste_burst.holds_text()
            &&& r.paste_burst.burst_window_until is None
            &&& r.input_history == m.input_history
            &&& r.draft_history == m.draft_history
            &&& r.kill_buffer == m.kill_buffer
        }),
{
    let held = m.held_before_paste();
    let more = without_returns(text);
    let h = m.with_held_text();
    let c = m.cursor;
    if m.paste_burst.holds_text() {
        let base = ComposerModel { paste_burst: m.paste_burst.handed_over(), ..m };
        insertion_keeps_text(base, held);
    } else {
        assert(m.input =~= m.input.take(c) + held + m.input.skip(c));
    }
    assert(h.input =~= m.input.take(c) + held + m.input.skip(c));
    assert(h.cursor == c + held.len());
    insertion_keeps_text(h, more);
    assert(h.input.take(c + held.len()) =~= m.input.take(c) + held);
    assert(h.input.skip(c + held.len()) =~= m.input.skip(c));
    assert(m.pasted(text).input =~= m.input.take(c) + (held + more) + m.input.skip(c));
}

proof fn lemma_no_returns(text: Seq<char>)
    requires
        forall|i: int| 0 <= i < text.len() ==> text[i] != '\r',
    ensures
        without_returns(text) == text,
    decreases text.len(),
{
    if text.len() > 0 {
        lemma_no_returns(text.drop_last());
        assert(without_returns(text) =~= text);
    } else {
        assert(without_returns(text) =~= text);
    }
}

/// A text without carriage returns is pasted as it is.
pub proof fn plain_texts_are_pasted_as_they_are(m: ComposerModel, text: Seq<char>)
    requires
        0 <= m.cursor <= m.input.len(),
        !m.paste_burst.holds_text(),
        forall|i: int| 0 <= i < text.len() ==> text[i] != '\r',
    ensures
        m.pasted(text).input == m.input.take(m.cursor) + text + m.input.skip(m.cursor),
        m.pasted(text).cursor == m.cursor + text.len(),
{
    lemma_no_returns(text);
    pastes_go_in_behind_what_is_held(m, text);
    assert(Seq::<char>::empty() + text =~= text);
}

/// What is due of a burst goes in at the cursor: the whole buffer, or the first
/// character where there is no more. Where nothing is due nothing changes.
pub proof fn due_text_goes_in_at_the_cursor(m: ComposerModel, now: u64)
    requires
        0 <= m.cursor <= m.input.len(),
    ensures
        !m.paste_burst.is_due(now) ==> m.flushed(now) == m,
        m.paste_burst.is_due(now) && (m.paste_burst.active || m.paste_burst.buffer.len() > 0)
            ==> m.flushed(now).input == m.input.take(m.cursor) + m.paste_burst.buffer
            + m.input.skip(m.cursor) && m.flushed(now).cursor == m.cursor
            + m.paste_burst.buffer.len() && m.flushed(now).paste_burst.buffer.len() == 0,
        m.paste_burst.is_due(now) && !m.paste_burst.active && m.paste_burst.buffer.len() == 0 ==> (
        m.paste_burst.pending_first_char matches Some(c) ==> m.flushed(now).input == m.input.insert(
            m.cursor,
            c,
        ) && m.flushed(now).cursor == m.cursor + 1),
        m.has_due_text(now) == (m.paste_burst.is_due(now) && (m.paste_burst.active
            || m.paste_burst.buffer.len() > 0 || m.paste_burst.pending_first_char is Some)),
{
    let after = ComposerModel { paste_burst: m.paste_burst.flushed(now), ..m };
    insertion_keeps_text(after, m.paste_burst.buffer);
    if let Some(c) = m.paste_burst.pending_first_char {
        assert(after.typed(c).input =~= m.input.insert(m.cursor, c));
    }
}

/// An input of up to sixteen thousand characters stays as it is. A longer one
/// gives way to a mention of the file that it is stored in, or to its first
/// sixteen thousand characters where it could not be stored.
pub proof fn long_inputs_give_way(m: ComposerModel, outcome: OutcomeModel)
    ensures
        m.input.len() <= 16_000 ==> m.consolidated(outcome) == m,
        m.input.len() > 16_000 ==> (outcome matches OutcomeModel::Stored { rel_path }
            ==> m.consolidated(outcome).input == "@"@ + rel_path),
        m.input.len() > 16_000 && !(outcome is Stored) ==> m.consolidated(outcome).input.len()
            == 16_000 && forall|i: int|
            0 <= i < 16_000 ==> m.consolidated(outcome).input[i] == m.input[i],
        m.input.len() > 16_000 ==> m.consolidated(outcome).cursor == m.consolidated(
            outcome,
        ).input.len(),
        m.consolidated(outcome).input_history == m.input_history,
{
}

/// The user is told whether a long input was stored: what became of it, and for
/// how long.
pub proof fn the_user_is_told_of_long_inputs(outcome: OutcomeModel, now: u64)
    ensures
        outcome is Stored ==> outcome.toast(now).level == StatusToastLevel::Info && outcome.toast(
            now,
        ).ttl_ms == Some(5_000u64) && outcome.toast(now).text
            == "Large paste consolidated — sent as @mention"@,
        !(outcome is Stored) ==> outcome.toast(now).level == StatusToastLevel::Error
            && outcome.toast(now).ttl_ms == Some(8_000u64),
        outcome matches OutcomeModel::WriteFailed { error } ==> outcome.toast(now).text
            == "Failed to write paste file: "@ + error,
        outcome matches OutcomeModel::DirectoryFailed { error } ==> outcome.toast(now).text
            == "Failed to create paste directory: "@ + error,
        outcome.toast(now).created_at == now,
{
}

/// The label of an image names its size in pixels, and in kilobytes rounded up.
pub proof fn images_are_described_by_size(image: PastedImage)
    ensures
        exists|w: Seq<char>, h: Seq<char>, k: Seq<char>|
            number_of(w) == image.width && number_of(h) == image.height && 1024 * number_of(k)
                >= image.byte_len && 1024 * number_of(k) < image.byte_len + 1024
                && image.description() == #[trigger] (w + "x"@ + h + " PNG ("@ + k + "KB)"@),
{
    let w = decimal(image.width as nat);
    let h = decimal(image.height as nat);
    let n = ((image.byte_len + 1023) / 1024) as nat;
    let k = decimal(n);
    decimals_are_read_back(image.width as nat);
    decimals_are_read_back(image.height as nat);
    decimals_are_read_back(n);
    reveal_strlit(" PNG (");
    reveal_strlit(" PNG");
    reveal_strlit(" (");
    reveal_strlit("KB)");
    reveal_strlit("KB");
    reveal_strlit(")");
    assert(" PNG ("@ =~= " PNG"@ + " ("@);
    assert("KB)"@ =~= "KB"@ + ")"@);
    assert(image.description() =~= w + "x"@ + h + " PNG ("@ + k + "KB)"@);
}

// ---------------------------------------------------------------------------
// The API key
// ---------------------------------------------------------------------------

/// Control characters do not get into a key; all others do, in their order.
pub proof fn keys_hold_no_control_characters(a: Seq<char>, c: char, i: int)
    ensures
        is_control(c) ==> without_controls(a.push(c)) == without_controls(a),
        !is_control(c) ==> without_controls(a.push(c)) == without_controls(a).push(c),
        without_controls(Seq::empty()) == Seq::<char>::empty(),
        0 <= i < without_controls(a).len() ==> !is_control(without_controls(a)[i]),
    decreases a.len(),
{
    assert(a.push(c).drop_last() =~= a);
    if a.len() > 0 {
        keys_hold_no_control_characters(a.drop_last(), a.last(), i);
        assert(a.drop_last().push(a.last()) =~= a);
        let front = without_controls(a.drop_last());
        if !is_control(a.last()) && 0 <= i < without_controls(a).len() && i < front.len() {
            assert(without_controls(a)[i] == front[i]);
        }
    }
}

/// The cursor of the key stands within it.
pub proof fn the_key_cursor_stays_in_the_key(flow: OnboardingFlow)
    ensures
        flow.api_key_cursor <= flow.api_key_input@.len() ==> flow.key_caret()
            == flow.api_key_cursor,
        flow.api_key_cursor > flow.api_key_input@.len() ==> flow.key_caret()
            == flow.api_key_input@.len(),
{
}

// ---------------------------------------------------------------------------
// Submitting
// ---------------------------------------------------------------------------

/// An input that is not blank and not too long is sent as it was typed. It is
/// recorded here and across sessions, unless it is a command.
pub proof fn inputs_are_sent_as_typed(
    before: App,
    after: App,
    submitted: Option<String>,
    stored: OutcomeModel,
    now: u64,
)
    requires
        after.has_submitted(before, submitted, stored, now),
        !all_blank(before.composer@.input),
        before.composer@.input.len() <= 16_000,
        before.preferences.max_input_history > 0,
    ensures
        submitted matches Some(text) && text@ == before.composer@.input,
        !has_prefix(before.composer@.input, "/"@) ==> after.composer@.input_history.last()
            == before.composer@.input && effect_models(after.effects@) == effect_models(
            before.effects@,
        ).push(EffectModel::AppendInputHistory { input: before.composer@.input }),
        has_prefix(before.composer@.input, "/"@) ==> after.composer@.input_history
            == before.composer@.input_history && effect_models(after.effects@) == effect_models(
            before.effects@,
        ),
        after.composer@.input.len() == 0,
        after.composer@.cursor == 0,
        after.transcript == before.transcript,
        after.queue == before.queue,
        after.status@ == before.status@,
{
    trimming_takes_outer_blanks(before.composer@.input);
}

/// A blank input is not sent, and stays.
pub proof fn blank_inputs_stay(
    before: App,
    after: App,
    submitted: Option<String>,
    stored: OutcomeModel,
    now: u64,
)
    requires
        after.has_submitted(before, submitted, stored, now),
        all_blank(before.composer@.input),
    ensures
        submitted is None,
        after.composer@.input == before.composer@.input,
        after.composer@.cursor == before.composer@.cursor,
        after.composer@.input_history == before.composer@.input_history,
        after.effects == before.effects,
{
    trimming_takes_outer_blanks(before.composer@.input);
}

/// An Enter key that belongs to a paste is a line break in it: in what is held
/// back, or at the cursor. Nothing is sent.
pub proof fn absorbed_enters_are_line_breaks(m: ComposerModel, now: u64)
    requires
        0 <= m.cursor <= m.input.len(),
    ensures
        m.paste_burst.holds_text() ==> App::enter_absorbed(m, now).paste_burst.buffer
            == m.paste_burst.buffer.push('\n') && App::enter_absorbed(m, now).input == m.input,
        !m.paste_burst.holds_text() ==> App::enter_absorbed(m, now).input == m.input.insert(
            m.cursor,
            '\n',
        ) && App::enter_absorbed(m, now).cursor == m.cursor + 1,
        App::enter_absorbed(m, now).paste_burst.absorbs_enter(now),
{
    assert(m.typed('\n').input =~= m.input.insert(m.cursor, '\n'));
}

/// Inputs go out at once only where nothing is under way and the session is
/// online; else they wait.
pub proof fn inputs_wait_for_the_turn(app: App)
    ensures
        app.is_loading ==> app.disposition() == SubmitDisposition::Queue,
        app.offline_mode ==> app.disposition() == SubmitDisposition::Queue,
        !app.is_loading && !app.offline_mode ==> app.disposition() == SubmitDisposition::Immediate,
{
}

/// A waiting message is taken back only into an empty composer, and while none
/// is being edited.
pub proof fn drafts_are_not_overwritten(app: App)
    ensures
        app.composer@.input.len() > 0 ==> !app.can_edit_queued(),
        app.queue.queued_draft is Some ==> !app.can_edit_queued(),
        app.queue.queued_messages@.len() == 0 ==> !app.can_edit_queued(),
        app.composer@.input.len() == 0 && app.queue.queued_draft is None
            && app.queue.queued_messages@.len() > 0 ==> app.can_edit_queued(),
{
}

// ---------------------------------------------------------------------------
// Modes
// ---------------------------------------------------------------------------

/// The mode without approvals allows everything, and only in it the restore is
/// held. The other modes never raise what is allowed.
pub proof fn only_one_mode_allows_everything(policy: PolicyState, mode: AppMode)
    requires
        policy.mode != mode,
    ensures
        policy.switched(mode).mode == mode,
        policy.switched(mode).yolo == (mode == AppMode::Yolo),
        mode == AppMode::Yolo ==> policy.switched(mode).allow_shell && policy.switched(
            mode,
        ).trust_mode && policy.switched(mode).approval_mode == ApprovalMode::Auto
            && policy.switched(mode).yolo_restore is Some,
        mode != AppMode::Yolo && policy.mode != AppMode::Yolo ==> policy.switched(mode).allow_shell
            == policy.allow_shell && policy.switched(mode).trust_mode == policy.trust_mode
            && policy.switched(mode).yolo_restore == policy.yolo_restore,
        policy.mode == AppMode::Yolo && policy.yolo_restore is Some ==> policy.switched(
            mode,
        ).yolo_restore is None,
{
}

/// What waits in planning is dropped outside of it.
pub proof fn plans_are_kept_while_planning(policy: PolicyState, mode: AppMode)
    ensures
        mode != AppMode::Plan ==> !policy.switched(mode).plan_prompt_pending && !policy.switched(
            mode,
        ).plan_tool_used_in_turn,
        mode == AppMode::Plan ==> policy.switched(mode).plan_prompt_pending
            == policy.plan_prompt_pending && policy.switched(mode).plan_tool_used_in_turn
            == policy.plan_tool_used_in_turn,
{
}

// ---------------------------------------------------------------------------
// Models
// ---------------------------------------------------------------------------

/// Without automatic choice the chosen model counts and is shown as it is.
pub proof fn fixed_models_are_shown_as_they_are(state: ModelState)
    requires
        !state.auto_model,
    ensures
        state.effective_model() == state.model@,
        state.model_label() == state.model@,
        state.reasoning_effort != ReasoningEffort::Auto ==> state.effort_label()
            == state.reasoning_effort.name(),
{
}

/// With automatic choice the model chosen last counts, and is shown as such;
/// before the first choice the default one counts.
pub proof fn automatic_models_show_their_choice(state: ModelState)
    requires
        state.auto_model,
    ensures
        state.last_effective_model is None ==> state.effective_model() == "deepseek-v4-pro"@
            && state.model_label() == "auto"@,
        state.last_effective_model matches Some(m) && m@ != "auto"@ ==> state.effective_model()
            == state.last_effective_model->0@ && state.model_label() == "auto: "@
            + state.last_effective_model->0@,
        state.last_effective_reasoning_effort is None ==> state.effort_label() == "auto"@,
        state.last_effective_reasoning_effort matches Some(e) ==> state.effort_label()
            == "auto: "@ + e.name(),
{
}

/// Automatic effort shows what was chosen last, for a fixed model too.
pub proof fn automatic_efforts_show_their_choice(state: ModelState)
    requires
        state.reasoning_effort == ReasoningEffort::Auto,
    ensures
        state.last_effective_reasoning_effort is None ==> state.effort_label() == "auto"@,
        state.last_effective_reasoning_effort matches Some(e) ==> state.effort_label()
            == "auto: "@ + e.name(),
{
}

// ---------------------------------------------------------------------------
// The start
// ---------------------------------------------------------------------------

/// The settings' provider counts before the configuration's, and DeepSeek where
/// neither names one.
pub proof fn settings_choose_the_provider(config: Config, settings: Settings)
    ensures
        settings.default_provider matches Some(name) ==> (ApiProvider::named(name@) matches Some(p)
            ==> startup_provider(config, settings) == p),
        settings.default_provider is None ==> (config.provider matches Some(name) ==> (
        ApiProvider::named(name@) matches Some(p) ==> startup_provider(config, settings) == p)),
        settings.default_provider is None && config.provider is None ==> startup_provider(
            config,
            settings,
        ) == ApiProvider::Deepseek,
{
}

/// The model set for the provider counts before all others, and the one set by
/// default only for DeepSeek's own services; else the one asked for counts.
pub proof fn settings_choose_the_model(asked: Seq<char>, provider: ApiProvider, settings: Settings)
    ensures
        settings.provider_models@.contains_key(provider.name()) ==> startup_model(
            asked,
            provider,
            settings,
        ) == settings.provider_models@[provider.name()]@,
        !settings.provider_models@.contains_key(provider.name()) && (settings.default_model is None
            || (provider != ApiProvider::Deepseek && provider != ApiProvider::DeepseekCN))
            ==> startup_model(asked, provider, settings) == asked,
        !settings.provider_models@.contains_key(provider.name()) && (provider
            == ApiProvider::Deepseek || provider == ApiProvider::DeepseekCN) ==> (
        settings.default_model matches Some(m) ==> startup_model(asked, provider, settings) == m@),
{
}

/// Options count before the default mode, and the one without approvals before
/// all.
pub proof fn options_choose_the_mode(options: TuiOptions, settings: Settings)
    ensures
        options.yolo ==> startup_mode(options, settings) == AppMode::Yolo,
        !options.yolo && options.start_in_agent_mode ==> startup_mode(options, settings)
            == AppMode::Agent,
        !options.yolo && !options.start_in_agent_mode ==> startup_mode(options, settings)
            == AppMode::named(settings.default_mode@),
{
}

/// A session without approvals starts with everything allowed, and leaves for
/// what is configured; another one starts with what is configured.
pub proof fn sessions_start_with_their_policies(allow_shell: bool, config: Config, mode: AppMode)
    requires
        mode != AppMode::Yolo,
    ensures
        ({
            let p = PolicyState::starting(mode, allow_shell, config);
            let y = PolicyState::starting(AppMode::Yolo, allow_shell, config);
            let left = y.switched(mode);
            &&& p.mode == mode && !p.yolo && p.yolo_restore is None && !p.trust_mode
            &&& p.allow_shell == allow_shell
            &&& p.approval_mode == config.approval_choice()
            &&& y.yolo && y.allow_shell && y.trust_mode && y.approval_mode == ApprovalMode::Auto
            &&& left.allow_shell == (config.allow_shell == Some(true))
            &&& !left.trust_mode
            &&& left.approval_mode == config.approval_choice()
        }),
{
}

/// The composer starts with the input that was asked for, the cursor behind it,
/// and the inputs of earlier sessions to recall.
pub proof fn composers_start_with_the_asked_input(options: TuiOptions, startup: Startup)
    ensures
        options.initial_input matches Some(text) ==> startup_composer(options, startup).input
            == text@,
        options.initial_input is None ==> startup_composer(options, startup).input.len() == 0,
        startup_composer(options, startup).cursor == startup_input(options.initial_input).len(),
        startup_composer(options, startup).input_history.len() == startup.input_history@.len(),
        forall|i: int|
            0 <= i < startup.input_history@.len() ==> #[trigger] startup_composer(
                options,
                startup,
            ).input_history[i] == startup.input_history@[i]@,
        startup_composer(options, startup).history_index is None,
        startup_composer(options, startup).search is None,
        startup_composer(options, startup).selected_attachment is None,
        startup_composer(options, startup).kill_buffer.len() == 0,
        startup_composer(options, startup).draft_history.len() == 0,
        !startup_composer(options, startup).slash_menu_hidden,
        !startup_composer(options, startup).mention_menu_hidden,
        startup_composer(options, startup).slash_menu_selected == 0,
        startup_composer(options, startup).mention_menu_selected == 0,
        startup_composer(options, startup).vim_mode == VimMode::Normal,
        !startup_composer(options, startup).vim_pending_d,
        !startup_composer(options, startup).paste_burst.holds_text(),
{
}

/// The skills of the workspace count before the user's own, and these before
/// the directory asked for unless one is configured.
pub proof fn workspaces_bring_their_skills(options: TuiOptions, config: Config, startup: Startup)
    requires
        options.workspace@.len() > 0,
        options.workspace@.last() != '/',
    ensures
        startup.agents_skills_dir_exists ==> startup_skills_dir(options, config, startup)
            == options.workspace@ + "/"@ + ".agents"@ + "/"@ + "skills"@,
        !startup.agents_skills_dir_exists && startup.local_skills_dir_exists ==> startup_skills_dir(
            options,
            config,
            startup,
        ) == options.workspace@ + "/"@ + "skills"@,
        !startup.agents_skills_dir_exists && !startup.local_skills_dir_exists && config.skills_dir
            is None ==> (startup.global_agents_skills_dir matches Some(dir) ==> startup_skills_dir(
            options,
            config,
            startup,
        ) == dir@),
        !startup.agents_skills_dir_exists && !startup.local_skills_dir_exists && config.skills_dir
            is Some ==> startup_skills_dir(options, config, startup) == options.skills_dir@,
{
    reveal_strlit(".agents");
    let below = options.workspace@ + "/"@ + ".agents"@;
    assert(below.last() == 's');
}

/// What is configured or chosen counts before what is usual.
pub proof fn choices_count_before_defaults(config: Config, startup: Startup)
    ensures
        startup.chosen_background matches Some(color) ==> startup_background(startup) == color,
        startup.chosen_background is None ==> startup_background(startup)
            == startup.theme_background,
        config.status_items matches Some(items) ==> startup_status_items(config, startup).len()
            == items@.len(),
        config.status_items is None ==> startup_status_items(config, startup).len()
            == startup.default_status_items@.len(),
        config.provider is None ==> config.provider_choice() == ApiProvider::Deepseek,
        config.approval_policy is None ==> config.approval_choice() == ApprovalMode::Suggest,
        config.reasoning_effort is None ==> config.effort_choice() == ReasoningEffort::Max,
        config.permits_shell() == (config.allow_shell == Some(true)),
{
}

/// A model by the name of `auto`, in whatever case and with whatever blanks
/// around it, is chosen for each request.
pub proof fn automatic_models_are_known_by_name(
    before: Seq<char>,
    written: Seq<char>,
    behind: Seq<char>,
)
    requires
        all_blank(before),
        all_blank(behind),
        ascii_lowercase(written) == "auto"@,
    ensures
        is_auto_model(before + written + behind),
{
    reveal_strlit("auto");
    assert(is_plain_name("auto"@));
    names_are_read_in_any_case(before, written, behind, "auto"@);
}

// ---------------------------------------------------------------------------
// The session
// ---------------------------------------------------------------------------

/// The telemetry of the latest fifty turns is kept, in order.
pub proof fn the_latest_turns_are_kept(turns: Seq<TurnCacheRecord>, record: TurnCacheRecord)
    ensures
        ({
            let after = last_of(turns.push(record), TURN_CACHE_HISTORY_CAP as int);
            &&& after.last() == record
            &&& turns.len() < 50 ==> after == turns.push(record)
            &&& turns.len() >= 50 ==> after.len() == 50 && forall|i: int|
                0 <= i < 49 ==> after[i] == turns[turns.len() - 49 + i]
        }),
{
}

/// A second request to quit counts within two seconds of the first.
pub proof fn quitting_takes_two_requests_within_two_seconds(app: App, armed_at: u64, now: u64)
    requires
        armed_at + QUIT_CONFIRMATION_WINDOW_MS <= u64::MAX,
    ensures
        app.quit_armed_until is None ==> !app.waits_for_quit(now),
        app.quit_armed_until == Some((armed_at + QUIT_CONFIRMATION_WINDOW_MS) as u64)
            ==> app.waits_for_quit(now) == (now < armed_at + 2_000),
{
}

/// A long input is stored below the workspace, in a file named by the time and
/// the first eight characters of the identifier.
pub proof fn long_inputs_are_stored_by_time(timestamp: Seq<char>, identifier: Seq<char>)
    requires
        identifier.len() >= 8,
    ensures
        paste_path(timestamp, identifier) == ".deepseek/pastes/paste-"@ + timestamp + "-"@
            + identifier.take(8) + ".md"@,
{
}

/// An Enter key belongs to a paste only where pastes are looked for.
pub proof fn enters_are_absorbed_where_pastes_are_looked_for(app: App, now: u64)
    ensures
        !app.preferences.use_paste_burst_detection ==> !app.absorbs_enter(now),
        app.preferences.use_paste_burst_detection ==> app.absorbs_enter(now)
            == app.composer@.paste_burst.absorbs_enter(now),
{
}

} // verus!
