//! The application: what its events do to its state.

use deepseek_session::tui::app::pasting::{ClipboardContent, PasteOutcome, PastedImage};
use deepseek_session::tui::app::App;
use deepseek_session::tui::cells::{HistoryCell, PlanItem, QueuedMessage, StepStatus, TodoStatus};
use deepseek_session::tui::composer::MAX_SUBMITTED_INPUT_CHARS;
use deepseek_session::tui::settings::{
    initial_onboarding_state, AppMode, ApprovalMode, Config, OnboardingState, Startup,
    SubmitDisposition, TuiOptions,
};

/// The time of every event, in milliseconds.
const NOW: u64 = 1_000_000;

fn test_options(yolo: bool) -> TuiOptions {
    TuiOptions {
        model: "test-model".to_string(),
        workspace: ".".to_string(),
        config_path: None,
        config_profile: None,
        allow_shell: yolo,
        use_alt_screen: true,
        use_mouse_capture: false,
        use_bracketed_paste: true,
        max_subagents: 1,
        skills_dir: ".".to_string(),
        memory_path: "memory.md".to_string(),
        notes_path: "notes.txt".to_string(),
        mcp_config_path: "mcp.json".to_string(),
        use_memory: false,
        start_in_agent_mode: yolo,
        skip_onboarding: false,
        yolo,
        resume_session_id: None,
        initial_input: None,
    }
}

fn new_app(options: TuiOptions, config: &Config) -> App {
    App::new(options, config, Startup::default())
}

fn stored() -> PasteOutcome {
    PasteOutcome::Stored {
        rel_path: ".deepseek/pastes/paste-2026-01-01-000000-0000abcd.md".to_string(),
    }
}

#[test]
fn test_trust_mode_follows_yolo_on_startup() {
    let app = new_app(test_options(true), &Config::default());
    assert!(app.policy.trust_mode);
}

#[test]
fn onboarded_user_still_gets_workspace_trust_prompt_when_needed() {
    assert_eq!(
        initial_onboarding_state(false, true, false, true),
        OnboardingState::TrustDirectory
    );
}

#[test]
fn new_caches_workspace_skills_for_slash_menu() {
    let mut options = test_options(false);
    options.workspace = "/work/workspace".to_string();
    options.skills_dir = "/work/global-skills".to_string();
    let startup = Startup {
        agents_skills_dir_exists: true,
        cached_skills: vec![(
            "local-skill".to_string(),
            "Local workspace skill".to_string(),
        )],
        ..Startup::default()
    };
    let app = App::new(options, &Config::default(), startup);

    assert_eq!(
        app.environment.skills_dir,
        "/work/workspace/.agents/skills"
    );
    assert!(app.environment.cached_skills.iter().any(|(name, description)| {
        name == "local-skill" && description == "Local workspace skill"
    }));
}

#[test]
fn paste_consolidates_oversized_text_into_paste_file_visibly() {
    // When a single paste exceeds the cap, the mention replaces the input at
    // once, so that it is seen before it is sent.
    let mut app = new_app(test_options(false), &Config::default());
    let full_content = "y".repeat(MAX_SUBMITTED_INPUT_CHARS + 256);
    assert_eq!(app.paste_to_store(&full_content), Some(full_content.clone()));

    app.insert_paste_text(&full_content, &stored(), NOW);

    assert!(
        app.composer.input.starts_with("@.deepseek/pastes/paste-")
            && app.composer.input.ends_with(".md"),
        "expected @mention in composer after large paste, got: {}",
        app.composer.input
    );
    assert_eq!(
        app.composer.cursor_position,
        app.composer.input.chars().count()
    );
    assert!(
        app.status
            .status_toasts
            .iter()
            .any(|t| t.text.contains("consolidated")),
        "expected consolidation toast"
    );
}

#[test]
fn paste_under_threshold_does_not_consolidate() {
    let mut app = new_app(test_options(false), &Config::default());
    let small = "hello world\nthis is fine".to_string();

    app.insert_paste_text(&small, &stored(), NOW);

    assert_eq!(app.composer.input, small);
    assert!(!app.composer.input.starts_with("@.deepseek/pastes/"));
    assert!(app.status.status_toasts.is_empty());
}

#[test]
fn submit_input_consolidates_oversized_input_into_paste_file() {
    let mut app = new_app(test_options(false), &Config::default());
    let full_content = "x".repeat(MAX_SUBMITTED_INPUT_CHARS + 128);
    app.composer.input = full_content.clone();
    app.composer.cursor_position = app.composer.input.chars().count();
    assert_eq!(app.submission_to_store(), Some(full_content));

    let submitted = app
        .submit_input(&stored(), NOW)
        .expect("expected submitted input");

    assert!(
        submitted.starts_with("@.deepseek/pastes/paste-"),
        "expected @mention, got: {submitted}"
    );
    assert!(
        submitted.ends_with(".md"),
        "expected .md extension, got: {submitted}"
    );
    assert!(app
        .status
        .status_toasts
        .iter()
        .any(|toast| toast.text.contains("consolidated")));
    assert!(app.composer.input.is_empty());
}

#[test]
fn app_starts_without_seeded_transcript_messages() {
    let app = new_app(test_options(false), &Config::default());
    assert!(app.transcript.history.is_empty());
    assert_eq!(app.transcript.history_version, 0);
}

#[test]
fn clear_todos_resets_todos_list() {
    let mut app = new_app(test_options(false), &Config::default());

    app.todos.add("buy milk".to_string(), TodoStatus::Pending);
    app.todos
        .add("write code".to_string(), TodoStatus::InProgress);
    assert_eq!(app.todos.items.len(), 2);

    assert!(app.clear_todos(true, true));

    assert!(app.todos.items.is_empty());
}

#[test]
fn clear_todos_resets_plan_state() {
    let mut app = new_app(test_options(false), &Config::default());

    app.plan_state.update(
        Some("test plan".to_string()),
        vec![PlanItem {
            step: "step 1".to_string(),
            status: StepStatus::InProgress,
        }],
    );
    assert!(!app.plan_state.is_empty());

    assert!(app.clear_todos(true, true));

    assert!(app.plan_state.is_empty());
}

#[test]
fn test_cycle_mode_transitions() {
    let mut app = new_app(test_options(false), &Config::default());
    // Default mode should be Agent based on settings
    let initial_mode = app.policy.mode;
    app.cycle_mode();
    // Mode should have changed
    assert_ne!(app.policy.mode, initial_mode);
}

#[test]
fn test_cycle_mode_reverse_transitions() {
    let mut app = new_app(test_options(false), &Config::default());

    app.policy.mode = AppMode::Plan;
    app.cycle_mode_reverse();
    assert_eq!(app.policy.mode, AppMode::Yolo);

    app.policy.mode = AppMode::Agent;
    app.cycle_mode_reverse();
    assert_eq!(app.policy.mode, AppMode::Plan);
}

#[test]
fn test_clear_input() {
    let mut app = new_app(test_options(false), &Config::default());
    app.composer.input = "test input".to_string();
    app.composer.cursor_position = app.composer.input.len();
    app.clear_input();
    assert!(app.composer.input.is_empty());
    assert_eq!(app.composer.cursor_position, 0);
}

#[test]
fn test_queue_message() {
    let mut app = new_app(test_options(false), &Config::default());
    app.queue_message(QueuedMessage::new("test message".to_string(), None));
    assert_eq!(app.queued_message_count(), 1);
    assert!(app.queue.queued_messages.front().is_some());
}

#[test]
fn test_remove_queued_message() {
    let mut app = new_app(test_options(false), &Config::default());
    app.queue_message(QueuedMessage::new("first".to_string(), None));
    app.queue_message(QueuedMessage::new("second".to_string(), None));

    // Remove first (index 0)
    let removed = app.remove_queued_message(0);
    assert!(removed.is_some());
    assert_eq!(app.queued_message_count(), 1);

    // Remove second (now at index 0)
    let removed = app.remove_queued_message(0);
    assert!(removed.is_some());
    assert_eq!(app.queued_message_count(), 0);
}

#[test]
fn test_remove_queued_message_invalid_index() {
    let mut app = new_app(test_options(false), &Config::default());
    app.queue_message(QueuedMessage::new("test".to_string(), None));

    // Try to remove non-existent index
    let removed = app.remove_queued_message(100);
    assert!(removed.is_none());
}

#[test]
fn test_set_mode_updates_state() {
    let mut app = new_app(test_options(false), &Config::default());
    let initial_mode = app.policy.mode;
    app.set_mode(AppMode::Yolo);
    assert_eq!(app.policy.mode, AppMode::Yolo);
    assert_ne!(app.policy.mode, initial_mode);
    // Yolo mode should enable trust and shell
    assert!(app.policy.trust_mode);
    assert!(app.policy.allow_shell);
}

#[test]
fn app_new_respects_allow_shell_option_when_not_yolo() {
    let mut options = test_options(false);
    options.allow_shell = false;
    options.start_in_agent_mode = true;
    let app = new_app(options, &Config::default());
    assert!(!app.policy.allow_shell);
}

#[test]
fn set_mode_yolo_restores_previous_policies_on_exit() {
    let mut options = test_options(false);
    options.allow_shell = false;
    options.start_in_agent_mode = true;
    let mut app = new_app(options, &Config::default());
    app.policy.allow_shell = false;
    app.policy.trust_mode = false;
    app.policy.approval_mode = ApprovalMode::Never;

    app.set_mode(AppMode::Yolo);
    assert!(app.policy.allow_shell);
    assert!(app.policy.trust_mode);
    assert_eq!(app.policy.approval_mode, ApprovalMode::Auto);

    app.set_mode(AppMode::Agent);
    assert!(!app.policy.allow_shell);
    assert!(!app.policy.trust_mode);
    assert_eq!(app.policy.approval_mode, ApprovalMode::Never);
}

#[test]
fn leaving_yolo_after_startup_restores_baseline_policies() {
    let config = Config {
        allow_shell: Some(false),
        ..Default::default()
    };

    let mut app = new_app(test_options(true), &config);
    assert_eq!(app.policy.mode, AppMode::Yolo);
    assert!(app.policy.allow_shell);
    assert!(app.policy.trust_mode);
    assert_eq!(app.policy.approval_mode, ApprovalMode::Auto);

    app.set_mode(AppMode::Agent);
    assert!(!app.policy.allow_shell);
    assert!(!app.policy.trust_mode);
    assert_eq!(app.policy.approval_mode, ApprovalMode::Suggest);
}

#[test]
fn configured_approval_policy_initializes_live_approval_mode() {
    let config = Config {
        approval_policy: Some("never".to_string()),
        ..Default::default()
    };
    let mut options = test_options(false);
    options.start_in_agent_mode = true;

    let app = new_app(options, &config);

    assert_eq!(app.policy.mode, AppMode::Agent);
    assert_eq!(app.policy.approval_mode, ApprovalMode::Never);
}

#[test]
fn test_mark_history_updated() {
    let mut app = new_app(test_options(false), &Config::default());
    let initial_version = app.transcript.history_version;
    app.mark_history_updated();
    assert!(app.transcript.history_version > initial_version);
}

#[test]
fn test_scroll_operations() {
    let mut app = new_app(test_options(false), &Config::default());
    app.scroll_up(5);
    app.scroll_down(3);
}

#[test]
fn test_add_message() {
    let mut app = new_app(test_options(false), &Config::default());
    let initial_len = app.transcript.history.len();
    app.add_message(HistoryCell::User {
        content: "test".to_string(),
    });
    assert_eq!(app.transcript.history.len(), initial_len + 1);
}

#[test]
fn test_compaction_config() {
    let app = new_app(test_options(false), &Config::default());
    let config = app.compaction_config();
    let _ = config.enabled;
}

#[test]
fn test_update_model_compaction_budget() {
    let mut app = new_app(test_options(false), &Config::default());
    app.model_state.model = "unknown-test-model".to_string();
    app.update_model_compaction_budget();
    let initial_threshold = app.model_state.compact_threshold;
    app.model_state.model = "deepseek-v3.2-128k".to_string();
    app.update_model_compaction_budget();
    // Threshold may have changed based on model
    // Explicit 128k DeepSeek model IDs have a higher threshold than unknown models.
    assert!(app.model_state.compact_threshold >= initial_threshold);
}

#[test]
fn test_input_history_navigation() {
    let mut app = new_app(test_options(false), &Config::default());
    app.composer.input_history.push("first".to_string());
    app.composer.input_history.push("second".to_string());

    // Navigate up
    app.history_up();
    assert!(app.composer.history_index.is_some());

    // Navigate down
    app.history_down();
}

#[test]
fn input_history_down_restores_live_draft_after_accidental_up() {
    let mut app = new_app(test_options(false), &Config::default());
    app.composer.input_history.push("previous prompt".to_string());
    app.composer.input = "careful current draft".to_string();
    app.composer.cursor_position = "careful".chars().count();

    app.history_up();
    assert_eq!(app.composer.input, "previous prompt");

    app.history_down();
    assert_eq!(app.composer.input, "careful current draft");
    assert_eq!(app.composer.cursor_position, "careful".chars().count());
    assert!(app.composer.history_index.is_none());
}

#[test]
fn input_history_restores_empty_draft_at_end_of_navigation() {
    let mut app = new_app(test_options(false), &Config::default());
    app.composer.input_history.push("previous prompt".to_string());

    app.history_up();
    assert_eq!(app.composer.input, "previous prompt");

    app.history_down();
    assert!(app.composer.input.is_empty());
    assert_eq!(app.composer.cursor_position, 0);
    assert!(app.composer.history_index.is_none());
}

#[test]
fn word_cursor_helpers_move_by_whitespace_delimited_words() {
    let mut app = new_app(test_options(false), &Config::default());
    app.composer.input = "alpha beta  gamma".to_string();
    app.composer.cursor_position = 0;

    app.move_cursor_word_forward();
    assert_eq!(app.composer.cursor_position, "alpha ".chars().count());

    app.move_cursor_word_forward();
    assert_eq!(app.composer.cursor_position, "alpha beta  ".chars().count());

    app.move_cursor_word_backward();
    assert_eq!(app.composer.cursor_position, "alpha ".chars().count());
}

#[test]
fn editing_history_entry_leaves_navigation_mode() {
    let mut app = new_app(test_options(false), &Config::default());
    app.composer.input_history.push("previous prompt".to_string());
    app.composer.input = "current draft".to_string();
    app.composer.cursor_position = app.composer.input.chars().count();

    app.history_up();
    app.insert_char('!');
    app.history_down();

    assert_eq!(app.composer.input, "previous prompt!");
    assert!(app.composer.history_index.is_none());
}

#[test]
fn history_search_filters_matches_and_skips_duplicates() {
    let mut app = new_app(test_options(false), &Config::default());
    app.composer.input_history.clear();
    app.composer.input_history.push("alpha one".to_string());
    app.composer.input_history.push("beta two".to_string());
    app.composer.input_history.push("alpha one".to_string());
    app.composer.draft_history.push_back("draft alpha".to_string());

    app.start_history_search();
    app.history_search_insert_str("alpha");

    assert_eq!(
        app.history_search_matches(),
        vec!["draft alpha".to_string(), "alpha one".to_string()]
    );
}

#[test]
fn history_search_matches_unicode_case_insensitively() {
    let mut app = new_app(test_options(false), &Config::default());
    app.composer.input_history.clear();
    app.composer.input_history.push("CAFÉ prompt".to_string());

    app.start_history_search();
    app.history_search_insert_str("café");

    assert_eq!(
        app.history_search_matches(),
        vec!["CAFÉ prompt".to_string()]
    );
}

#[test]
fn history_search_accepts_match_without_submitting() {
    let mut app = new_app(test_options(false), &Config::default());
    app.composer.input_history.clear();
    app.composer.input_history.push("older prompt".to_string());

    app.start_history_search();
    app.history_search_insert_str("older");

    assert!(app.accept_history_search());
    assert_eq!(app.composer.input, "older prompt");
    assert_eq!(app.composer.cursor_position, "older prompt".chars().count());
    assert!(app.composer.composer_history_search.is_none());
}

#[test]
fn history_search_cancel_restores_pre_search_draft() {
    let mut app = new_app(test_options(false), &Config::default());
    app.composer.input_history.clear();
    app.composer.input = "current draft".to_string();
    app.composer.cursor_position = 7;
    app.composer.input_history.push("older prompt".to_string());

    app.start_history_search();
    app.history_search_insert_str("older");
    app.cancel_history_search();

    assert_eq!(app.composer.input, "current draft");
    assert_eq!(app.composer.cursor_position, 7);
    assert!(app.composer.composer_history_search.is_none());
}

#[test]
fn recoverable_clear_stashes_nonempty_draft() {
    let mut app = new_app(test_options(false), &Config::default());
    app.composer.input_history.clear();
    app.composer.input = "recover this".to_string();
    app.composer.cursor_position = app.composer.input.chars().count();

    app.clear_input_recoverable();
    app.start_history_search();
    app.history_search_insert_str("recover");

    assert_eq!(
        app.history_search_matches(),
        vec!["recover this".to_string()]
    );
}

#[test]
fn composer_paste_flushes_pending_burst_and_normalizes_crlf() {
    let mut app = new_app(test_options(false), &Config::default());
    app.preferences.use_paste_burst_detection = true;

    app.composer.paste_burst.hold_first_char('x', NOW);
    assert!(
        app.composer.input.is_empty(),
        "first burst char should stay buffered"
    );

    app.insert_paste_text("a\r\nb\rc", &stored(), NOW);

    assert_eq!(app.composer.input, "xa\nbc");
    assert_eq!(app.composer.cursor_position, "xa\nbc".chars().count());
    assert!(!app.composer.paste_burst.is_active());
}

#[test]
fn enter_during_active_paste_burst_appends_newline_to_buffer_not_submit() {
    let mut app = new_app(test_options(false), &Config::default());
    app.preferences.use_paste_burst_detection = true;
    let now = NOW;
    app.composer.paste_burst.append_char_to_buffer('h', now);
    app.composer.paste_burst.append_char_to_buffer('i', now);
    assert!(app.composer.paste_burst.is_active());
    assert!(app.composer.input.is_empty());

    let result = app.handle_composer_enter(&stored(), NOW);

    assert!(
        result.is_none(),
        "Enter during active paste burst must not submit"
    );
    let flushed = app.composer.paste_burst.flush_before_modified_input();
    assert_eq!(
        flushed.as_deref(),
        Some("hi\n"),
        "newline must land in the burst buffer so the next flush carries it"
    );
}

#[test]
fn enter_inside_paste_burst_window_after_flush_inserts_newline_not_submit() {
    let mut app = new_app(test_options(false), &Config::default());
    app.preferences.use_paste_burst_detection = true;
    app.composer.input = "hello".to_string();
    app.composer.cursor_position = "hello".chars().count();
    let now = NOW;
    app.composer.paste_burst.extend_window(now);
    assert!(!app.composer.paste_burst.is_active());
    assert!(
        app.composer.paste_burst.newline_should_insert_instead_of_submit(now),
        "suppression window should be open"
    );

    let result = app.handle_composer_enter(&stored(), NOW);

    assert!(
        result.is_none(),
        "Enter inside post-flush suppression window must not submit"
    );
    assert_eq!(
        app.composer.input, "hello\n",
        "newline must be inserted into the composer instead of firing a submit"
    );
}

#[test]
fn enter_outside_any_paste_burst_window_submits_normally() {
    let mut app = new_app(test_options(false), &Config::default());
    app.preferences.use_paste_burst_detection = true;
    app.composer.input = "hello world".to_string();
    app.composer.cursor_position = "hello world".chars().count();

    let result = app.handle_composer_enter(&stored(), NOW);

    assert_eq!(
        result.as_deref(),
        Some("hello world"),
        "Enter outside any paste burst window must submit normally"
    );
    assert!(
        app.composer.input.is_empty(),
        "submit_input should clear the composer"
    );
}

#[test]
fn enter_with_paste_burst_detection_disabled_submits_normally() {
    let mut app = new_app(test_options(false), &Config::default());
    app.preferences.use_paste_burst_detection = false;
    app.composer.input = "ship it".to_string();
    app.composer.cursor_position = "ship it".chars().count();
    let now = NOW;
    app.composer.paste_burst.extend_window(now);

    let result = app.handle_composer_enter(&stored(), NOW);

    assert_eq!(result.as_deref(), Some("ship it"));
}

#[test]
fn clipboard_text_paste_matches_bracketed_paste_state() {
    let text = "alpha\r\nbeta";
    let mut bracketed = new_app(test_options(false), &Config::default());
    let mut clipboard = new_app(test_options(false), &Config::default());

    bracketed.insert_paste_text(text, &stored(), NOW);
    clipboard.apply_clipboard_content(ClipboardContent::Text(text.to_string()), &stored(), NOW);

    assert_eq!(clipboard.composer.input, bracketed.composer.input);
    assert_eq!(clipboard.composer.cursor_position, bracketed.composer.cursor_position);
    assert_eq!(clipboard.composer.slash_menu_hidden, bracketed.composer.slash_menu_hidden);
    assert_eq!(clipboard.composer.mention_menu_hidden, bracketed.composer.mention_menu_hidden);
}

#[test]
fn clipboard_image_paste_keeps_adjacent_text_and_concise_status() {
    let mut app = new_app(test_options(false), &Config::default());
    app.composer.input = "before after".to_string();
    app.composer.cursor_position = "before".chars().count();

    app.apply_clipboard_content(ClipboardContent::Image(PastedImage {
        path: "/tmp/pasted.png".to_string(),
        width: 8,
        height: 4,
        byte_len: 2048,
    }), &stored(), NOW);

    assert!(
        app.composer.input
            .contains("before\n[Attached image: 8x4 PNG (2KB) at /tmp/pasted.png]")
    );
    assert!(app.composer.input.contains("] after"));
    let status = app.status.status_message.as_deref().expect("status message");
    assert_eq!(status, "Attached image: 8x4 PNG (2KB)");
}

#[test]
fn pasted_text_and_image_placeholders_survive_history_and_queue_paths() {
    let mut app = new_app(test_options(false), &Config::default());
    app.insert_paste_text("line 1\r\nline 2", &stored(), NOW);
    app.insert_media_attachment("image", "/tmp/pasted.png", Some("8x4 PNG (2KB)"));

    let submitted = app.submit_input(&stored(), NOW).expect("submitted input");
    assert!(submitted.contains("line 1\nline 2"));
    assert!(submitted.contains("[Attached image: 8x4 PNG (2KB) at /tmp/pasted.png]"));

    app.history_up();
    assert_eq!(app.composer.input, submitted);
    assert_eq!(app.composer_attachment_count(), 1);

    app.clear_input();
    app.queue_message(QueuedMessage::new(
        submitted.clone(),
        Some("Use this skill".to_string()),
    ));
    assert!(app.pop_last_queued_into_draft());
    assert_eq!(app.composer.input, submitted);
    assert_eq!(app.composer_attachment_count(), 1);
    assert_eq!(
        app.queue.queued_draft
            .as_ref()
            .and_then(|draft| draft.skill_instruction.as_deref()),
        Some("Use this skill")
    );

    app.push_pending_steer(QueuedMessage::new(submitted.clone(), None));
    let steers = app.drain_pending_steers();
    assert_eq!(steers[0].display, submitted);
}

#[test]
fn selected_attachment_row_removes_placeholder_without_manual_editing() {
    let mut app = new_app(test_options(false), &Config::default());
    app.composer.input = "before".to_string();
    app.composer.cursor_position = "before".chars().count();
    app.insert_media_attachment("image", "/tmp/pasted.png", Some("8x4 PNG"));
    app.insert_str("after");

    app.move_cursor_start();
    assert!(app.select_previous_composer_attachment());
    assert_eq!(app.selected_composer_attachment_index(), Some(0));
    assert!(app.remove_selected_composer_attachment());

    assert!(!app.composer.input.contains("[Attached image:"));
    assert!(app.composer.input.contains("before"));
    assert!(app.composer.input.contains("after"));
    assert_eq!(app.composer_attachment_count(), 0);
    assert!(app.selected_composer_attachment_index().is_none());
}

#[test]
fn kill_to_end_of_line_cuts_from_middle_of_word() {
    let mut app = new_app(test_options(false), &Config::default());
    app.composer.input = "hello world".to_string();
    app.composer.cursor_position = 6; // before 'w'
    assert!(app.kill_to_end_of_line());
    assert_eq!(app.composer.input, "hello ");
    assert_eq!(app.composer.cursor_position, 6);
    assert_eq!(app.composer.kill_buffer, "world");
}

#[test]
fn kill_at_eol_consumes_following_newline() {
    let mut app = new_app(test_options(false), &Config::default());
    app.composer.input = "line one\nline two".to_string();
    app.composer.cursor_position = 8; // sitting on the '\n'
    assert!(app.kill_to_end_of_line());
    assert_eq!(app.composer.input, "line oneline two");
    assert_eq!(app.composer.cursor_position, 8);
    assert_eq!(app.composer.kill_buffer, "\n");

    // Empty input: kill is a no-op and the buffer is untouched.
    let mut empty = new_app(test_options(false), &Config::default());
    assert!(!empty.kill_to_end_of_line());
    assert!(empty.composer.input.is_empty());
    assert!(empty.composer.kill_buffer.is_empty());
}

#[test]
fn yank_inserts_kill_buffer_and_preserves_it() {
    let mut app = new_app(test_options(false), &Config::default());
    app.composer.input = "abc def".to_string();
    app.composer.cursor_position = 4; // before 'd'
    assert!(app.kill_to_end_of_line());
    assert_eq!(app.composer.input, "abc ");
    assert_eq!(app.composer.kill_buffer, "def");

    // Move cursor to the start and yank twice — kill_buffer must persist.
    app.composer.cursor_position = 0;
    assert!(app.yank());
    assert!(app.yank());
    assert_eq!(app.composer.input, "defdefabc ");
    assert_eq!(app.composer.cursor_position, 6);
    assert_eq!(app.composer.kill_buffer, "def");

    // Yank with empty buffer is a no-op.
    let mut empty = new_app(test_options(false), &Config::default());
    assert!(!empty.yank());
    assert!(empty.composer.input.is_empty());
}

#[test]
fn quit_is_not_armed_by_default() {
    let app = new_app(test_options(false), &Config::default());
    assert!(!app.quit_is_armed(NOW));
    assert!(app.quit_armed_until.is_none());
}

#[test]
fn arm_quit_sets_two_second_window() {
    let mut app = new_app(test_options(false), &Config::default());
    app.arm_quit(NOW);
    assert!(app.quit_is_armed(NOW));
    let deadline = app.quit_armed_until.expect("deadline set");
    let remaining = deadline - NOW;
    assert!(
        remaining >= 1_500 && remaining <= 2_000,
        "expected ~2s window, got {remaining:?}",
    );
    assert!(app.needs_redraw, "armed prompt should request a redraw");
}

#[test]
fn disarm_quit_clears_the_timer() {
    let mut app = new_app(test_options(false), &Config::default());
    app.arm_quit(NOW);
    app.needs_redraw = false;
    app.disarm_quit();
    assert!(!app.quit_is_armed(NOW));
    assert!(app.quit_armed_until.is_none());
    assert!(app.needs_redraw, "disarming should request a redraw");
}

#[test]
fn disarm_quit_when_not_armed_is_a_noop() {
    let mut app = new_app(test_options(false), &Config::default());
    app.needs_redraw = false;
    app.disarm_quit();
    assert!(!app.needs_redraw, "no redraw when nothing changed");
}

#[test]
fn quit_armed_expires_after_window() {
    let mut app = new_app(test_options(false), &Config::default());
    // Pin the deadline in the past to simulate a stale timer.
    app.quit_armed_until = Some(NOW - 10);
    assert!(
        !app.quit_is_armed(NOW),
        "expired timer must not count as armed"
    );

    app.needs_redraw = false;
    app.tick_quit_armed(NOW);
    assert!(app.quit_armed_until.is_none(), "tick clears expired timer");
    assert!(
        app.needs_redraw,
        "expiry triggers a redraw to repaint footer"
    );
}

#[test]
fn quit_armed_tick_is_noop_within_window() {
    let mut app = new_app(test_options(false), &Config::default());
    app.arm_quit(NOW);
    app.needs_redraw = false;
    app.tick_quit_armed(NOW);
    assert!(
        app.quit_is_armed(NOW),
        "tick within window keeps the timer armed"
    );
    assert!(!app.needs_redraw, "no redraw when nothing changed");
}

#[test]
fn re_arming_after_expiry_starts_a_fresh_window() {
    let mut app = new_app(test_options(false), &Config::default());
    app.quit_armed_until = Some(NOW - 5_000);
    app.tick_quit_armed(NOW);
    assert!(app.quit_armed_until.is_none());
    app.arm_quit(NOW);
    let deadline = app.quit_armed_until.expect("re-armed");
    assert!(deadline > NOW, "fresh deadline in the future");
}

#[test]
fn submit_disposition_immediate_when_idle_and_online() {
    let app = new_app(test_options(false), &Config::default());
    assert!(!app.is_loading);
    assert!(!app.offline_mode);
    assert_eq!(
        app.decide_submit_disposition(),
        SubmitDisposition::Immediate
    );
}

#[test]
fn submit_disposition_queue_when_busy_and_online_not_streaming() {
    let mut app = new_app(test_options(false), &Config::default());
    app.is_loading = true;
    app.offline_mode = false;
    // streaming_message_index is None (default) → tool execution phase
    assert_eq!(app.decide_submit_disposition(), SubmitDisposition::Queue);
}

#[test]
fn submit_disposition_queue_when_busy_and_streaming() {
    let mut app = new_app(test_options(false), &Config::default());
    app.is_loading = true;
    app.offline_mode = false;
    app.transcript.streaming_message_index = Some(0);
    assert_eq!(app.decide_submit_disposition(), SubmitDisposition::Queue);
}

#[test]
fn submit_disposition_queue_when_offline_and_idle() {
    let mut app = new_app(test_options(false), &Config::default());
    app.is_loading = false;
    app.offline_mode = true;
    assert_eq!(app.decide_submit_disposition(), SubmitDisposition::Queue);
}

#[test]
fn submit_disposition_offline_busy_queues() {
    let mut app = new_app(test_options(false), &Config::default());
    app.is_loading = true;
    app.offline_mode = true;
    // Offline mode always queues, even when streaming
    app.transcript.streaming_message_index = Some(0);
    assert_eq!(app.decide_submit_disposition(), SubmitDisposition::Queue);
}

#[test]
fn push_pending_steer_arms_resend_flag() {
    let mut app = new_app(test_options(false), &Config::default());
    assert!(!app.queue.submit_pending_steers_after_interrupt);
    app.push_pending_steer(QueuedMessage::new("steer me".to_string(), None));
    assert_eq!(app.queue.pending_steers.len(), 1);
    assert!(app.queue.submit_pending_steers_after_interrupt);
}

#[test]
fn drain_pending_steers_clears_flag_and_returns_in_order() {
    let mut app = new_app(test_options(false), &Config::default());
    app.push_pending_steer(QueuedMessage::new("first".to_string(), None));
    app.push_pending_steer(QueuedMessage::new("second".to_string(), None));
    app.push_pending_steer(QueuedMessage::new("third".to_string(), None));

    let drained = app.drain_pending_steers();
    assert_eq!(drained.len(), 3);
    assert_eq!(drained[0].display, "first");
    assert_eq!(drained[2].display, "third");
    assert!(app.queue.pending_steers.is_empty());
    assert!(!app.queue.submit_pending_steers_after_interrupt);
}

#[test]
fn drain_pending_steers_when_empty_is_safe() {
    let mut app = new_app(test_options(false), &Config::default());
    // Flag-only set (someone armed it manually): drain still clears it.
    app.queue.submit_pending_steers_after_interrupt = true;
    let drained = app.drain_pending_steers();
    assert!(drained.is_empty());
    assert!(!app.queue.submit_pending_steers_after_interrupt);
}

#[test]
fn double_push_pending_steer_is_idempotent_on_flag() {
    let mut app = new_app(test_options(false), &Config::default());
    app.push_pending_steer(QueuedMessage::new("a".to_string(), None));
    app.push_pending_steer(QueuedMessage::new("b".to_string(), None));
    assert!(app.queue.submit_pending_steers_after_interrupt);
    assert_eq!(app.queue.pending_steers.len(), 2);
}

#[test]
fn pop_last_queued_into_draft_pops_back_and_arms_draft() {
    let mut app = new_app(test_options(false), &Config::default());
    app.queue_message(QueuedMessage::new(
        "first".to_string(),
        Some("skill-A".to_string()),
    ));
    app.queue_message(QueuedMessage::new(
        "last".to_string(),
        Some("skill-B".to_string()),
    ));

    assert!(app.pop_last_queued_into_draft());
    assert_eq!(app.composer.input, "last");
    assert_eq!(app.composer.cursor_position, "last".chars().count());
    assert_eq!(app.queue.queued_messages.len(), 1);
    let draft = app.queue.queued_draft.clone().expect("draft is set");
    assert_eq!(draft.display, "last");
    assert_eq!(draft.skill_instruction.as_deref(), Some("skill-B"));
}

#[test]
fn pop_last_queued_into_draft_noop_when_composer_dirty() {
    let mut app = new_app(test_options(false), &Config::default());
    app.queue_message(QueuedMessage::new("queued".to_string(), None));
    app.composer.input = "typing".to_string();
    app.composer.cursor_position = app.composer.input.chars().count();

    assert!(!app.pop_last_queued_into_draft());
    assert_eq!(app.composer.input, "typing");
    assert_eq!(app.queue.queued_messages.len(), 1);
    assert!(app.queue.queued_draft.is_none());
}

#[test]
fn pop_last_queued_into_draft_noop_when_draft_already_armed() {
    let mut app = new_app(test_options(false), &Config::default());
    app.queue_message(QueuedMessage::new("queued".to_string(), None));
    app.queue.queued_draft = Some(QueuedMessage::new("editing".to_string(), None));

    assert!(!app.pop_last_queued_into_draft());
    assert_eq!(app.queue.queued_messages.len(), 1);
    assert_eq!(
        app.queue.queued_draft.as_ref().map(|d| d.display.as_str()),
        Some("editing")
    );
}

#[test]
fn pop_last_queued_into_draft_noop_when_queue_empty() {
    let mut app = new_app(test_options(false), &Config::default());
    assert!(!app.pop_last_queued_into_draft());
    assert!(app.composer.input.is_empty());
    assert!(app.queue.queued_draft.is_none());
}

#[test]
fn finalize_streaming_assistant_marks_existing_cell_interrupted() {
    let mut app = new_app(test_options(false), &Config::default());
    app.add_message(HistoryCell::Assistant {
        content: "partial reply so far".to_string(),
        streaming: true,
    });
    let idx = app.transcript.history.len() - 1;
    app.transcript.streaming_message_index = Some(idx);

    app.finalize_streaming_assistant_as_interrupted();

    assert!(app.transcript.streaming_message_index.is_none());
    match &app.transcript.history[idx] {
        HistoryCell::Assistant { content, streaming } => {
            assert!(content.starts_with("[interrupted]"), "got: {content}");
            assert!(content.contains("partial reply so far"));
            assert!(!streaming);
        }
        other => panic!("expected Assistant cell, got {other:?}"),
    }
}

#[test]
fn finalize_streaming_assistant_handles_empty_content() {
    let mut app = new_app(test_options(false), &Config::default());
    app.add_message(HistoryCell::Assistant {
        content: String::new(),
        streaming: true,
    });
    let idx = app.transcript.history.len() - 1;
    app.transcript.streaming_message_index = Some(idx);

    app.finalize_streaming_assistant_as_interrupted();

    match &app.transcript.history[idx] {
        HistoryCell::Assistant { content, streaming } => {
            assert_eq!(content, "[interrupted]");
            assert!(!streaming);
        }
        other => panic!("expected Assistant cell, got {other:?}"),
    }
}

#[test]
fn finalize_streaming_assistant_no_op_without_index() {
    let mut app = new_app(test_options(false), &Config::default());
    // No streaming index set; should not panic and should leave history unchanged.
    let prev_len = app.transcript.history.len();
    app.finalize_streaming_assistant_as_interrupted();
    assert_eq!(app.transcript.history.len(), prev_len);
    assert!(app.transcript.streaming_message_index.is_none());
}

#[test]
fn finalize_streaming_assistant_is_idempotent_on_double_call() {
    let mut app = new_app(test_options(false), &Config::default());
    app.add_message(HistoryCell::Assistant {
        content: "something".to_string(),
        streaming: true,
    });
    let idx = app.transcript.history.len() - 1;
    app.transcript.streaming_message_index = Some(idx);

    app.finalize_streaming_assistant_as_interrupted();
    // Second call without resetting state must be safe.
    app.finalize_streaming_assistant_as_interrupted();

    match &app.transcript.history[idx] {
        HistoryCell::Assistant { content, .. } => {
            // Second call still finds index None — content unchanged from first.
            assert!(content.starts_with("[interrupted] "));
            assert_eq!(content.matches("[interrupted]").count(), 1);
        }
        other => panic!("expected Assistant cell, got {other:?}"),
    }
}

#[test]
fn delete_word_backward_removes_previous_word_only() {
    let mut app = new_app(test_options(false), &Config::default());
    app.composer.input = "hello world".to_string();
    app.composer.cursor_position = app.composer.input.chars().count();

    app.delete_word_backward();

    assert_eq!(app.composer.input, "hello ");
    assert_eq!(app.composer.cursor_position, "hello ".chars().count());
}

#[test]
fn delete_word_backward_handles_trailing_space_and_utf8() {
    let mut app = new_app(test_options(false), &Config::default());
    app.composer.input = "cafe 你好   ".to_string();
    app.composer.cursor_position = app.composer.input.chars().count();

    app.delete_word_backward();

    assert_eq!(app.composer.input, "cafe ");
    assert_eq!(app.composer.cursor_position, "cafe ".chars().count());
}

#[test]
fn delete_word_forward_handles_leading_space_and_utf8() {
    let mut app = new_app(test_options(false), &Config::default());
    app.composer.input = "hello 你好 world".to_string();
    app.composer.cursor_position = "hello".chars().count();

    app.delete_word_forward();

    assert_eq!(app.composer.input, "hello world");
    assert_eq!(app.composer.cursor_position, "hello".chars().count());
}

#[test]
fn delete_to_start_of_line_respects_multiline_cursor() {
    let mut app = new_app(test_options(false), &Config::default());
    app.composer.input = "first\nsecond line".to_string();
    app.composer.cursor_position = "first\nsecond".chars().count();

    app.delete_to_start_of_line();

    assert_eq!(app.composer.input, "first\n line");
    assert_eq!(app.composer.cursor_position, "first\n".chars().count());
}

#[test]
fn kill_and_yank_handle_multibyte_utf8() {
    let mut app = new_app(test_options(false), &Config::default());
    // "café 你好" — char_count = 7 (c,a,f,é, ,你,好); UTF-8 bytes differ.
    app.composer.input = "café 你好".to_string();
    app.composer.cursor_position = 5; // before '你'
    assert!(app.kill_to_end_of_line());
    assert_eq!(app.composer.input, "café ");
    assert_eq!(app.composer.cursor_position, 5);
    assert_eq!(app.composer.kill_buffer, "你好");

    // Yank back at the same spot — must not panic on char boundaries.
    assert!(app.yank());
    assert_eq!(app.composer.input, "café 你好");
    assert_eq!(app.composer.cursor_position, 7);
}
