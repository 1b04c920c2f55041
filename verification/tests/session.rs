//! Modes, models, onboarding, telemetry, statuses, and quitting.

use deepseek_session::tui::actions::AppAction;
use deepseek_session::tui::app::pasting::ClipboardContent;
use deepseek_session::tui::app::session::{ApiKeyError, TURN_CACHE_HISTORY_CAP};
use deepseek_session::tui::app::App;
use deepseek_session::tui::cells::TurnCacheRecord;
use deepseek_session::tui::hooks::{Effect, HookEvent};
use deepseek_session::tui::settings::{
    initial_onboarding_state, onboarding_is_workspace_trust_gate, ApiProvider, AppMode,
    ApprovalMode, Config, OnboardingState, ReasoningEffort, Rgb, SidebarFocus, Startup,
    TranscriptSpacing, TuiOptions,
};
use deepseek_session::tui::status::{classify_status_text, StatusToast, StatusToastLevel};

const NOW: u64 = 1_000_000;

fn options() -> TuiOptions {
    TuiOptions {
        model: "deepseek-v4-pro".to_string(),
        workspace: "/work/project".to_string(),
        config_path: None,
        config_profile: None,
        allow_shell: false,
        use_alt_screen: true,
        use_mouse_capture: false,
        use_bracketed_paste: true,
        max_subagents: 1,
        skills_dir: "/work/skills".to_string(),
        memory_path: "memory.md".to_string(),
        notes_path: "notes.txt".to_string(),
        mcp_config_path: "mcp.json".to_string(),
        use_memory: false,
        start_in_agent_mode: true,
        skip_onboarding: false,
        yolo: false,
        resume_session_id: None,
        initial_input: None,
    }
}

fn new_app() -> App {
    App::new(options(), &Config::default(), Startup::default())
}

fn record(input_tokens: u32) -> TurnCacheRecord {
    TurnCacheRecord {
        input_tokens,
        output_tokens: 1,
        cache_hit_tokens: None,
        cache_miss_tokens: None,
        reasoning_replay_tokens: None,
        recorded_at_ms: NOW,
    }
}

#[test]
fn switching_modes_says_so_and_asks_for_hooks() {
    let mut app = new_app();
    app.needs_redraw = false;
    assert!(app.set_mode(AppMode::Plan));
    assert_eq!(
        app.status.status_message.as_deref(),
        Some("Switched to PLAN mode")
    );
    assert!(app.needs_redraw);
    assert_eq!(app.effects.len(), 1);
    match &app.effects[0] {
        Effect::RunHooks { event, context } => {
            assert_eq!(*event, HookEvent::ModeChange);
            assert_eq!(context.mode.as_deref(), Some("PLAN"));
            assert_eq!(context.previous_mode.as_deref(), Some("AGENT"));
            assert_eq!(context.workspace.as_deref(), Some("/work/project"));
            assert_eq!(context.model.as_deref(), Some("deepseek-v4-pro"));
            assert_eq!(context.session_id, None);
        }
        other => panic!("expected hooks, got {other:?}"),
    }

    app.needs_redraw = false;
    assert!(!app.set_mode(AppMode::Plan));
    assert_eq!(app.effects.len(), 1);
    assert!(!app.needs_redraw);
}

#[test]
fn leaving_plan_mode_forgets_its_prompt() {
    let mut app = new_app();
    app.set_mode(AppMode::Plan);
    app.policy.plan_prompt_pending = true;
    app.policy.plan_tool_used_in_turn = true;
    app.set_mode(AppMode::Agent);
    assert!(!app.policy.plan_prompt_pending);
    assert!(!app.policy.plan_tool_used_in_turn);
}

#[test]
fn modes_cycle_round_and_back() {
    let mut app = new_app();
    app.policy.approval_mode = ApprovalMode::Never;
    assert_eq!(app.policy.mode, AppMode::Agent);
    app.cycle_mode();
    assert_eq!(app.policy.mode, AppMode::Yolo);
    assert_eq!(app.policy.approval_mode, ApprovalMode::Auto);
    app.cycle_mode_reverse();
    assert_eq!(app.policy.mode, AppMode::Agent);
    assert_eq!(app.policy.approval_mode, ApprovalMode::Never);
    assert!(!app.policy.allow_shell);
    app.cycle_mode();
    app.cycle_mode();
    assert_eq!(app.policy.mode, AppMode::Plan);
    app.cycle_mode();
    assert_eq!(app.policy.mode, AppMode::Agent);
}

#[test]
fn efforts_cycle_and_are_announced() {
    let mut app = new_app();
    app.model_state.reasoning_effort = ReasoningEffort::Off;
    app.model_state.last_effective_reasoning_effort = Some(ReasoningEffort::Max);
    app.cycle_effort(NOW);
    assert_eq!(app.model_state.reasoning_effort, ReasoningEffort::High);
    assert_eq!(app.model_state.last_effective_reasoning_effort, None);
    let toast = app.status.status_toasts.back().expect("a toast");
    assert_eq!(toast.text, "Thinking: high");
    assert_eq!(toast.level, StatusToastLevel::Info);
    assert_eq!(toast.ttl_ms, Some(1_500));
    app.cycle_effort(NOW);
    assert_eq!(app.model_state.reasoning_effort, ReasoningEffort::Max);
    app.cycle_effort(NOW);
    assert_eq!(app.model_state.reasoning_effort, ReasoningEffort::Off);
}

#[test]
fn hooks_are_told_of_the_session() {
    let startup = Startup {
        hook_session_id: "session-7".to_string(),
        ..Startup::default()
    };
    let mut app = App::new(options(), &Config::default(), startup);
    app.session.total_tokens = 42;
    let context = app.base_hook_context();
    assert_eq!(context.mode.as_deref(), Some("AGENT"));
    assert_eq!(context.previous_mode, None);
    assert_eq!(context.session_id.as_deref(), Some("session-7"));
    assert_eq!(context.total_tokens, Some(42));
}

#[test]
fn turn_telemetry_is_bounded() {
    let mut app = new_app();
    for n in 0..60 {
        app.push_turn_cache_record(record(n));
    }
    assert_eq!(app.session.turn_cache_history.len(), TURN_CACHE_HISTORY_CAP);
    assert_eq!(app.session.turn_cache_history[0].input_tokens, 10);
    assert_eq!(app.session.turn_cache_history[49].input_tokens, 59);
}

#[test]
fn model_telemetry_is_forgotten() {
    let mut app = new_app();
    app.session.total_tokens = 9;
    app.session.last_prompt_tokens = Some(1);
    app.session.last_completion_tokens = Some(2);
    app.session.last_prompt_cache_hit_tokens = Some(3);
    app.session.last_prompt_cache_miss_tokens = Some(4);
    app.session.last_reasoning_replay_tokens = Some(5);
    app.push_turn_cache_record(record(6));
    app.clear_model_scoped_telemetry();
    assert_eq!(app.session.last_prompt_tokens, None);
    assert_eq!(app.session.last_completion_tokens, None);
    assert_eq!(app.session.last_prompt_cache_hit_tokens, None);
    assert_eq!(app.session.last_prompt_cache_miss_tokens, None);
    assert_eq!(app.session.last_reasoning_replay_tokens, None);
    assert!(app.session.turn_cache_history.is_empty());
    assert_eq!(app.session.total_tokens, 9);
}

#[test]
fn models_and_efforts_are_labelled() {
    let mut app = new_app();
    app.model_state.model = "deepseek-v4-flash".to_string();
    app.model_state.auto_model = false;
    app.model_state.reasoning_effort = ReasoningEffort::High;
    assert_eq!(app.model_display_label(), "deepseek-v4-flash");
    assert_eq!(app.effective_model_for_budget(), "deepseek-v4-flash");
    assert_eq!(app.reasoning_effort_display_label(), "high");

    app.model_state.auto_model = true;
    app.model_state.last_effective_model = Some("auto".to_string());
    assert_eq!(app.model_display_label(), "auto");
    assert_eq!(app.effective_model_for_budget(), "deepseek-v4-pro");
    assert_eq!(app.reasoning_effort_display_label(), "auto");

    app.model_state.last_effective_model = Some("deepseek-v4-flash".to_string());
    app.model_state.last_effective_reasoning_effort = Some(ReasoningEffort::Max);
    assert_eq!(app.model_display_label(), "auto: deepseek-v4-flash");
    assert_eq!(app.effective_model_for_budget(), "deepseek-v4-flash");
    assert_eq!(app.reasoning_effort_display_label(), "auto: max");
}

#[test]
fn compaction_budgets_follow_the_model() {
    let mut app = new_app();
    app.model_state.auto_model = false;
    app.model_state.model = "DeepSeek-V4-Pro".to_string();
    app.update_model_compaction_budget();
    assert_eq!(app.model_state.compact_threshold, 800_000);
    app.model_state.model = "deepseek-v3.2-128k".to_string();
    app.update_model_compaction_budget();
    assert_eq!(app.model_state.compact_threshold, 102_400);
    app.model_state.model = "someone-else".to_string();
    app.update_model_compaction_budget();
    assert_eq!(app.model_state.compact_threshold, 50_000);
    app.model_state.auto_compact = true;
    let config = app.compaction_config();
    assert!(config.enabled);
    assert!(config.cache_summary);
    assert_eq!(config.token_threshold, 50_000);
    assert_eq!(config.model, "someone-else");
    assert_eq!(config.auto_floor_tokens, 500_000);
    assert_eq!(app.cycle_config(), app.model_state.cycle);
}

#[test]
fn api_keys_are_trimmed_and_stored() {
    let mut app = new_app();
    app.onboarding.api_key_input = "  \n".to_string();
    assert!(matches!(app.api_key_to_save(), Err(ApiKeyError::Empty)));
    assert!(matches!(
        app.submit_api_key(Ok("stored")),
        Err(ApiKeyError::Empty)
    ));
    assert_eq!(app.onboarding.api_key_input, "  \n");

    app.onboarding.api_key_input = " abc ".to_string();
    app.onboarding.api_key_cursor = 5;
    app.onboarding.needs_api_key = true;
    app.onboarding.api_key_env_only = true;
    assert_eq!(app.api_key_to_save().expect("a key"), "abc");
    match app.submit_api_key::<&str>(Err("disk full".to_string())) {
        Err(ApiKeyError::SaveFailed { source }) => assert_eq!(source, "disk full"),
        other => panic!("expected a failure, got {other:?}"),
    }
    assert_eq!(app.onboarding.api_key_input, " abc ");
    assert!(app.onboarding.needs_api_key);

    assert!(matches!(app.submit_api_key(Ok("stored")), Ok("stored")));
    assert!(app.onboarding.api_key_input.is_empty());
    assert_eq!(app.onboarding.api_key_cursor, 0);
    assert!(!app.onboarding.needs_api_key);
    assert!(!app.onboarding.api_key_env_only);
}

#[test]
fn api_keys_are_typed_and_pasted() {
    let mut app = new_app();
    app.insert_api_key_char('a');
    app.insert_api_key_str("b\nc\u{7}");
    assert_eq!(app.onboarding.api_key_input, "abc");
    assert_eq!(app.onboarding.api_key_cursor, 3);
    app.delete_api_key_char();
    assert_eq!(app.onboarding.api_key_input, "ab");
    app.paste_api_key_from_clipboard(Some(ClipboardContent::Text("xy\r\n".to_string())));
    assert_eq!(app.onboarding.api_key_input, "abxy");
    app.paste_api_key_from_clipboard(None);
    assert_eq!(app.onboarding.api_key_input, "abxy");
}

#[test]
fn onboarding_ends_with_or_without_a_note() {
    let mut app = new_app();
    app.onboarding.state = OnboardingState::Tips;
    app.finish_onboarding(Ok(()));
    assert_eq!(app.onboarding.state, OnboardingState::Finished);
    assert_eq!(app.status.status_message, None);
    app.finish_onboarding(Err("read-only".to_string()));
    assert_eq!(
        app.status.status_message.as_deref(),
        Some("Failed to mark onboarding: read-only")
    );
}

#[test]
fn onboarding_starts_where_it_is_needed() {
    assert_eq!(
        initial_onboarding_state(true, false, true, true),
        OnboardingState::Finished
    );
    assert_eq!(
        initial_onboarding_state(false, false, false, false),
        OnboardingState::Welcome
    );
    assert_eq!(
        initial_onboarding_state(false, true, true, true),
        OnboardingState::Welcome
    );
    assert_eq!(
        initial_onboarding_state(false, true, false, false),
        OnboardingState::Finished
    );
    assert!(onboarding_is_workspace_trust_gate(false, true, false, true));
    assert!(!onboarding_is_workspace_trust_gate(
        false, false, false, true
    ));
}

#[test]
fn locales_are_taken_when_stored() {
    let mut app = new_app();
    assert_eq!(app.current_locale_tag(None), "auto");
    assert_eq!(app.current_locale_tag(Some("ja")), "ja");
    assert_eq!(
        app.set_locale_from_onboarding(Err("no home".to_string())),
        Err("no home".to_string())
    );
    assert_eq!(app.preferences.ui_locale, "en");
    assert_eq!(app.set_locale_from_onboarding(Ok("ja".to_string())), Ok(()));
    assert_eq!(app.preferences.ui_locale, "ja");
}

#[test]
fn quitting_is_waited_for_two_seconds() {
    let mut app = new_app();
    app.arm_quit(NOW);
    assert!(app.quit_is_armed(NOW + 1_999));
    assert!(!app.quit_is_armed(NOW + 2_000));
    app.tick_quit_armed(NOW + 1_999);
    assert_eq!(app.quit_armed_until, Some(NOW + 2_000));
    app.tick_quit_armed(NOW + 2_000);
    assert_eq!(app.quit_armed_until, None);
}

#[test]
fn held_lists_are_not_cleared() {
    let mut app = new_app();
    app.todos.add(
        "later".to_string(),
        deepseek_session::tui::cells::TodoStatus::Pending,
    );
    app.plan_state.update(Some("why".to_string()), Vec::new());
    assert!(!app.clear_todos(false, false));
    assert_eq!(app.todos.items.len(), 1);
    assert!(!app.plan_state.is_empty());
    assert!(!app.clear_todos(false, true));
    assert_eq!(app.todos.items.len(), 1);
    assert!(app.plan_state.is_empty());
}

#[test]
fn preferences_are_handed_out() {
    let mut app = new_app();
    app.set_sidebar_focus(SidebarFocus::Agents);
    assert_eq!(app.preferences.sidebar_focus, SidebarFocus::Agents);
    app.preferences.show_thinking = false;
    app.preferences.verbose_transcript = true;
    let options = app.transcript_render_options();
    assert!(!options.show_thinking);
    assert!(options.verbose);
    assert_eq!(options.spacing, TranscriptSpacing::Comfortable);
    app.refresh_skill_cache(vec![("a".to_string(), "b".to_string())]);
    assert_eq!(
        app.environment.cached_skills,
        vec![("a".to_string(), "b".to_string())]
    );
}

#[test]
fn settings_are_read_by_name() {
    assert_eq!(AppMode::from_setting(" Plan "), AppMode::Plan);
    assert_eq!(AppMode::from_setting("YOLO"), AppMode::Yolo);
    assert_eq!(AppMode::from_setting("anything"), AppMode::Agent);
    assert_eq!(ApiProvider::parse("OpenRouter"), Some(ApiProvider::OpenRouter));
    assert_eq!(ApiProvider::parse("nobody"), None);
    assert_eq!(ReasoningEffort::Auto.api_value(), None);
    assert_eq!(ReasoningEffort::Low.api_value(), Some("low"));
    assert_eq!(ReasoningEffort::from_setting("?"), ReasoningEffort::Max);
    assert_eq!(
        ApprovalMode::from_config_value("never"),
        Some(ApprovalMode::Never)
    );
    assert_eq!(ApprovalMode::from_config_value("maybe"), None);
}

#[test]
fn statuses_are_told_apart_by_their_words() {
    let cases = [
        ("OFFLINE MODE on", StatusToastLevel::Warning, None, true),
        ("Save failed", StatusToastLevel::Error, Some(15_000), true),
        ("Session saved", StatusToastLevel::Success, Some(5_000), false),
        ("Turn cancelled", StatusToastLevel::Warning, Some(5_000), false),
        ("Hello", StatusToastLevel::Info, Some(4_000), false),
    ];
    for (text, level, ttl_ms, sticky) in cases {
        let class = classify_status_text(text);
        assert_eq!(class.level, level, "{text}");
        assert_eq!(class.ttl_ms, ttl_ms, "{text}");
        assert_eq!(class.sticky, sticky, "{text}");
    }
}

#[test]
fn statuses_are_taken_up_once() {
    let mut app = new_app();
    app.status.status_message = Some("Hello".to_string());
    app.sync_status_message_to_toasts(NOW);
    app.sync_status_message_to_toasts(NOW + 1);
    assert_eq!(app.status.status_toasts.len(), 1);
    app.status.status_message = Some("  ".to_string());
    app.sync_status_message_to_toasts(NOW + 2);
    assert_eq!(app.status.status_toasts.len(), 1);
}

#[test]
fn a_success_ends_a_sticky_error() {
    let mut app = new_app();
    app.status.status_message = Some("Request failed".to_string());
    app.sync_status_message_to_toasts(NOW);
    assert_eq!(
        app.active_status_toast(NOW).expect("an error").text,
        "Request failed"
    );
    app.status.status_message = Some("Session saved".to_string());
    app.sync_status_message_to_toasts(NOW + 1);
    assert!(app.status.sticky_status.is_none());
    assert_eq!(
        app.active_status_toast(NOW + 1).expect("a success").text,
        "Session saved"
    );
}

#[test]
fn toasts_are_bounded_and_pass() {
    let mut app = new_app();
    for n in 0..30 {
        app.push_status_toast(format!("{n}"), StatusToastLevel::Info, Some(100), NOW);
    }
    assert_eq!(app.status.status_toasts.len(), 24);
    assert_eq!(app.status.status_toasts[0].text, "6");

    app.set_sticky_status("here".to_string(), StatusToastLevel::Warning, Some(50), NOW);
    let shown = app.active_status_toasts(3, NOW + 49);
    let texts: Vec<&str> = shown.iter().map(|t| t.text.as_str()).collect();
    assert_eq!(texts, vec!["here", "28", "29"]);
    let shown = app.active_status_toasts(2, NOW + 50);
    let texts: Vec<&str> = shown.iter().map(|t| t.text.as_str()).collect();
    assert_eq!(texts, vec!["28", "29"]);
    assert!(app.active_status_toasts(2, NOW + 100).is_empty());
    assert!(app.active_status_toast(NOW + 100).is_none());

    app.set_sticky_status("stay".to_string(), StatusToastLevel::Warning, None, NOW);
    assert!(app.active_status_toast(u64::MAX).is_some());
    app.clear_sticky_status();
    assert!(app.active_status_toast(NOW).is_none());
}

#[test]
fn only_active_toasts_are_shown() {
    let mut app = new_app();
    app.push_status_toast("stays".to_string(), StatusToastLevel::Info, None, NOW);
    app.push_status_toast("passes".to_string(), StatusToastLevel::Info, Some(10), NOW);
    app.push_status_toast("later".to_string(), StatusToastLevel::Info, Some(90), NOW);
    let texts = |toasts: Vec<StatusToast>| -> Vec<String> {
        toasts.into_iter().map(|t| t.text).collect()
    };
    assert_eq!(
        texts(app.active_status_toasts(5, NOW + 9)),
        vec!["stays", "passes", "later"]
    );
    assert_eq!(
        texts(app.active_status_toasts(2, NOW + 10)),
        vec!["stays", "later"]
    );
    assert_eq!(texts(app.active_status_toasts(1, NOW + 10)), vec!["later"]);
    assert_eq!(app.status.status_toasts.len(), 3);

    app.set_sticky_status("here".to_string(), StatusToastLevel::Warning, None, NOW);
    assert!(app.active_status_toasts(0, NOW + 10).is_empty());
    assert_eq!(texts(app.active_status_toasts(1, NOW + 10)), vec!["here"]);
    assert_eq!(
        texts(app.active_status_toasts(2, NOW + 10)),
        vec!["here", "later"]
    );
    assert_eq!(
        texts(app.active_status_toasts(3, NOW + 90)),
        vec!["here", "stays"]
    );
}

#[test]
fn the_footer_and_background_follow_the_configuration() {
    let color = |red: u8| Rgb {
        red,
        green: 2,
        blue: 3,
    };
    let startup = || Startup {
        default_status_items: vec!["model".to_string()],
        theme_background: color(1),
        ..Startup::default()
    };
    let app = App::new(options(), &Config::default(), startup());
    assert_eq!(app.preferences.status_items, vec!["model".to_string()]);
    assert_eq!(app.preferences.background, color(1));

    let config = Config {
        status_items: Some(vec!["mode".to_string(), "cost".to_string()]),
        ..Config::default()
    };
    let chosen = Startup {
        chosen_background: Some(color(9)),
        ..startup()
    };
    let app = App::new(options(), &config, chosen);
    assert_eq!(
        app.preferences.status_items,
        vec!["mode".to_string(), "cost".to_string()]
    );
    assert_eq!(app.preferences.background, color(9));
}

#[test]
fn sessions_start_unused() {
    let app = new_app();
    assert!(app.conversation.api_messages.is_empty());
    assert!(app.conversation.system_prompt.is_none());
    assert_eq!(app.conversation.goal, None);
    assert!(!app.conversation.is_compacting);
    assert!(app.conversation.cycle_briefings.is_empty());
    assert_eq!(app.turn.turn_started_at, None);
    assert_eq!(app.turn.reasoning_buffer, "");
    assert!(app.turn.tool_log.is_empty());
    assert_eq!(app.turn.ignored_tool_calls.len(), 0);
    assert!(app.agents.task_panel.is_empty());
    assert!(app.queue.rejected_steers.is_empty());
    assert!(!app.environment.mcp_restart_required);
}

#[test]
fn actions_are_compared() {
    let ask = |text: &str| AppAction::SendMessage(text.to_string());
    assert_eq!(ask("a"), ask("a").clone());
    assert_ne!(ask("a"), ask("b"));
    assert_ne!(ask("a"), AppAction::Quit);
}
