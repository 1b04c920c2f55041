//! The composer: editing, recalling, searching, pasting and attaching.

use deepseek_session::tui::app::pasting::{ClipboardContent, PasteOutcome, PastedImage};
use deepseek_session::tui::app::App;
use deepseek_session::tui::attachments::{
    media_attachment_reference, media_attachment_references,
};
use deepseek_session::tui::cells::QueuedMessage;
use deepseek_session::tui::composer::{VimMode, MAX_DRAFT_HISTORY, MAX_SUBMITTED_INPUT_CHARS};
use deepseek_session::tui::hooks::Effect;
use deepseek_session::tui::paste_burst::FlushResult;
use deepseek_session::tui::settings::{Config, Settings, Startup, TuiOptions};
use deepseek_session::tui::status::StatusToastLevel;

const NOW: u64 = 1_000_000;

fn options() -> TuiOptions {
    TuiOptions {
        model: "test-model".to_string(),
        workspace: ".".to_string(),
        config_path: None,
        config_profile: None,
        allow_shell: false,
        use_alt_screen: true,
        use_mouse_capture: false,
        use_bracketed_paste: true,
        max_subagents: 1,
        skills_dir: ".".to_string(),
        memory_path: "memory.md".to_string(),
        notes_path: "notes.txt".to_string(),
        mcp_config_path: "mcp.json".to_string(),
        use_memory: false,
        start_in_agent_mode: true,
        skip_onboarding: false,
        yolo: false,
        resume_session_id: None,
        initial_input: None,
    }
}

fn new_app() -> App {
    App::new(options(), &Config::default(), Startup::default())
}

fn app_with(input: &str, cursor: usize) -> App {
    let mut app = new_app();
    app.composer.input = input.to_string();
    app.composer.cursor_position = cursor;
    app
}

fn stored() -> PasteOutcome {
    PasteOutcome::Stored {
        rel_path: ".deepseek/pastes/paste-x.md".to_string(),
    }
}

fn state(app: &App) -> (&str, usize) {
    (app.composer.input.as_str(), app.composer.cursor_position)
}

#[test]
fn typing_and_deleting_undo_each_other() {
    let mut app = app_with("né", 1);
    assert_eq!(app.cursor_byte_index(), 1);
    app.insert_char('é');
    assert_eq!(state(&app), ("néé", 2));
    assert_eq!(app.cursor_byte_index(), 3);
    app.delete_char();
    assert_eq!(state(&app), ("né", 1));
    app.delete_char_forward();
    assert_eq!(state(&app), ("n", 1));
    app.delete_char_forward();
    assert_eq!(state(&app), ("n", 1));
    app.move_cursor_start();
    app.delete_char();
    assert_eq!(state(&app), ("n", 0));
}

#[test]
fn the_cursor_stays_in_the_text() {
    let mut app = app_with("ab", 0);
    app.move_cursor_left();
    assert_eq!(app.composer.cursor_position, 0);
    app.move_cursor_right();
    app.move_cursor_right();
    app.move_cursor_right();
    assert_eq!(app.composer.cursor_position, 2);
    app.move_cursor_start();
    assert_eq!(app.composer.cursor_position, 0);
    app.move_cursor_end();
    assert_eq!(app.composer.cursor_position, 2);
}

#[test]
fn killed_text_is_yanked_back() {
    let mut app = app_with("one\ntwo", 1);
    assert!(app.kill_to_end_of_line());
    assert_eq!(state(&app), ("o\ntwo", 1));
    assert!(app.yank());
    assert_eq!(state(&app), ("one\ntwo", 3));
}

#[test]
fn vim_moves_between_and_within_lines() {
    let mut app = app_with("first\nsecond\nx", 9);
    app.vim_move_line_start();
    assert_eq!(app.composer.cursor_position, 6);
    app.vim_move_line_end();
    assert_eq!(app.composer.cursor_position, 12);
    app.composer.cursor_position = 9;
    app.vim_move_up();
    assert_eq!(app.composer.cursor_position, 3);
    app.vim_move_down();
    assert_eq!(app.composer.cursor_position, 9);
    app.vim_move_down();
    assert_eq!(app.composer.cursor_position, 14);
}

#[test]
fn vim_deletes_lines_and_characters() {
    let mut app = app_with("a\nb\nc", 2);
    app.vim_delete_line();
    assert_eq!(state(&app), ("a\nc", 2));
    app.vim_delete_line();
    assert_eq!(app.composer.input, "a");
    app.composer.cursor_position = 0;
    app.vim_delete_char_under_cursor();
    assert_eq!(state(&app), ("", 0));
}

#[test]
fn vim_changes_modes() {
    let mut app = app_with("ab", 2);
    app.composer.vim_enabled = true;
    app.vim_enter_normal();
    assert!(app.vim_is_normal_mode());
    assert_eq!(app.composer.cursor_position, 1);
    app.vim_enter_append();
    assert_eq!(app.composer.vim_mode, VimMode::Insert);
    assert_eq!(app.composer.cursor_position, 2);
    app.vim_enter_normal();
    app.vim_open_line_below();
    assert_eq!(state(&app), ("ab\n", 3));
    assert_eq!(app.composer.vim_mode, VimMode::Insert);
    app.composer.vim_mode = VimMode::Visual;
    assert!(app.vim_is_visual_mode());
    app.vim_enter_insert();
    assert!(!app.vim_is_visual_mode());
}

#[test]
fn drafts_are_kept_for_recovery_up_to_a_limit() {
    let mut app = new_app();
    for n in 0..60 {
        app.composer.input = format!("draft {n}");
        app.clear_input_recoverable();
    }
    assert_eq!(app.composer.draft_history.len(), MAX_DRAFT_HISTORY);
    assert_eq!(app.composer.draft_history[0], "draft 10");
    app.composer.input = "  ".to_string();
    app.clear_input_recoverable();
    assert_eq!(app.composer.draft_history.len(), MAX_DRAFT_HISTORY);
}

#[test]
fn searches_select_and_shrink() {
    let mut app = new_app();
    app.composer.input_history = vec!["one".to_string(), "only".to_string(), "two".to_string()];
    app.start_history_search();
    assert!(app.is_history_search_active());
    assert_eq!(app.history_search_query(), Some(""));
    assert_eq!(app.history_search_matches(), vec!["two", "only", "one"]);
    app.history_search_insert_char('O');
    app.history_search_insert_char('N');
    assert_eq!(app.history_search_matches(), vec!["only", "one"]);
    assert_eq!(app.composer_display_input(), "ON");
    assert_eq!(app.composer_display_cursor(), 2);
    app.history_search_select_next();
    assert_eq!(app.history_search_selected_index(), 1);
    app.history_search_select_next();
    assert_eq!(app.history_search_selected_index(), 1);
    app.history_search_select_previous();
    assert_eq!(app.history_search_selected_index(), 0);
    app.history_search_backspace();
    assert_eq!(app.history_search_matches(), vec!["two", "only", "one"]);
    app.history_search_insert_str("zzz");
    assert!(app.history_search_matches().is_empty());
    assert!(!app.accept_history_search());
    app.cancel_history_search();
    assert!(!app.is_history_search_active());
    assert!(app.history_search_matches().is_empty());
    assert_eq!(app.composer_display_input(), "");
}

#[test]
fn submitted_inputs_are_recorded() {
    let startup = Startup {
        settings: Settings {
            max_input_history: 2,
            ..Settings::default()
        },
        ..Startup::default()
    };
    let mut app = App::new(options(), &Config::default(), startup);
    for text in ["one", "two", "three"] {
        app.composer.input = text.to_string();
        assert_eq!(app.submit_input(&stored(), NOW).as_deref(), Some(text));
    }
    assert_eq!(app.composer.input_history, vec!["two", "three"]);
    assert_eq!(app.effects.len(), 3);
    assert!(matches!(
        &app.effects[2],
        Effect::AppendInputHistory { input } if input == "three"
    ));

    app.composer.input = "/help".to_string();
    assert_eq!(app.submit_input(&stored(), NOW).as_deref(), Some("/help"));
    assert_eq!(app.composer.input_history, vec!["two", "three"]);
    assert_eq!(app.effects.len(), 3);

    app.composer.input = " \n".to_string();
    assert_eq!(app.submit_input(&stored(), NOW), None);
    assert_eq!(app.composer.input, " \n");
}

#[test]
fn failed_files_leave_the_beginning_of_an_input() {
    let full = "z".repeat(MAX_SUBMITTED_INPUT_CHARS + 1);
    let cases = [
        (
            PasteOutcome::DirectoryFailed {
                error: "denied".to_string(),
            },
            "Failed to create paste directory: denied",
        ),
        (
            PasteOutcome::WriteFailed {
                error: "full".to_string(),
            },
            "Failed to write paste file: full",
        ),
    ];
    for (outcome, text) in cases {
        let mut app = new_app();
        app.insert_paste_text(&full, &outcome, NOW);
        assert_eq!(app.composer.input.len(), MAX_SUBMITTED_INPUT_CHARS);
        assert_eq!(app.composer.cursor_position, MAX_SUBMITTED_INPUT_CHARS);
        let toast = app.status.status_toasts.back().expect("a toast");
        assert_eq!(toast.text, text);
        assert_eq!(toast.level, StatusToastLevel::Error);
        assert_eq!(toast.ttl_ms, Some(8_000));
    }
}

#[test]
fn inputs_at_the_limit_stay() {
    let full = "z".repeat(MAX_SUBMITTED_INPUT_CHARS);
    let mut app = new_app();
    app.insert_paste_text(&full, &stored(), NOW);
    assert_eq!(app.composer.input, full);
    app.insert_paste_text("z", &stored(), NOW);
    assert_eq!(app.composer.input, "@.deepseek/pastes/paste-x.md");
    assert_eq!(
        app.status.status_toasts.back().map(|t| t.text.as_str()),
        Some("Large paste consolidated — sent as @mention")
    );
}

#[test]
fn bursts_are_flushed_when_due() {
    let mut app = new_app();
    app.preferences.use_paste_burst_detection = true;
    app.composer.paste_burst.hold_first_char('x', NOW);
    assert!(!app.flush_paste_burst_if_due(NOW));
    assert!(app.composer.input.is_empty());
    assert!(app.flush_paste_burst_if_due(NOW + 1_000));
    assert_eq!(app.composer.input, "x");

    app.composer.paste_burst.append_char_to_buffer('y', NOW);
    assert!(app.paste_burst_next_flush_delay_if_enabled(NOW).is_some());
    assert_eq!(
        app.flush_paste_burst_before_modified_input_if_enabled()
            .as_deref(),
        Some("y")
    );
    app.preferences.use_paste_burst_detection = false;
    assert!(!app.flush_paste_burst_if_enabled(NOW + 1_000));
    assert_eq!(app.paste_burst_next_flush_delay_if_enabled(NOW), None);
    assert_eq!(app.flush_paste_burst_before_modified_input_if_enabled(), None);
    assert!(matches!(
        app.composer.paste_burst.flush_if_due(NOW + 1_000),
        FlushResult::Nothing
    ));
}

#[test]
fn clipboards_are_pasted_or_left() {
    let mut app = new_app();
    app.paste_from_clipboard(None, &stored(), NOW);
    assert!(app.composer.input.is_empty());
    app.paste_from_clipboard(
        Some(ClipboardContent::Image(PastedImage {
            path: "/tmp/a.png".to_string(),
            width: 2,
            height: 3,
            byte_len: 100,
        })),
        &stored(),
        NOW,
    );
    assert_eq!(app.composer_attachment_count(), 1);
    assert!(app.composer.input.contains("2x3 PNG"));
    app.close_slash_menu();
    assert!(app.composer.slash_menu_hidden);
}

#[test]
fn attachments_are_read_back() {
    let written = media_attachment_reference("image", "/tmp/a b.png", Some(" 8x4 PNG "));
    assert_eq!(written, "[Attached image: 8x4 PNG at /tmp/a b.png]");
    assert_eq!(
        media_attachment_reference("video", "/tmp/v.mp4", Some("  ")),
        "[Attached video: /tmp/v.mp4]"
    );
    let input = format!("see {written} and [Attached video: /tmp/v.mp4]");
    let found = media_attachment_references(&input);
    assert_eq!(found.len(), 2);
    assert_eq!(found[0].kind, "image");
    assert_eq!(found[0].path, "/tmp/a b.png");
    assert_eq!(found[1].kind, "video");
    assert_eq!(found[1].path, "/tmp/v.mp4");
}

#[test]
fn attachments_are_selected_in_turn() {
    let mut app = new_app();
    assert!(!app.select_previous_composer_attachment());
    app.insert_media_attachment("image", "/tmp/a.png", None);
    app.insert_media_attachment("image", "/tmp/b.png", None);
    assert_eq!(app.composer_attachment_count(), 2);
    app.move_cursor_start();
    assert!(app.select_previous_composer_attachment());
    assert_eq!(app.selected_composer_attachment_index(), Some(1));
    assert!(app.select_previous_composer_attachment());
    assert_eq!(app.selected_composer_attachment_index(), Some(0));
    assert!(app.select_next_composer_attachment());
    assert_eq!(app.selected_composer_attachment_index(), Some(1));
    assert!(app.clear_composer_attachment_selection());
    assert_eq!(app.selected_composer_attachment_index(), None);
    assert!(!app.remove_selected_composer_attachment());
}

#[test]
fn queued_messages_leave_in_order() {
    let mut app = new_app();
    app.queue_message(QueuedMessage::new("a".to_string(), None));
    app.queue_message(QueuedMessage::new("b".to_string(), None));
    assert_eq!(app.pop_queued_message().expect("a message").display, "a");
    assert_eq!(app.pop_queued_message().expect("a message").display, "b");
    assert!(app.pop_queued_message().is_none());
}

#[test]
fn attaching_keeps_the_text_around() {
    let mut app = app_with("before after", 6);
    app.insert_media_attachment("image", "/tmp/a.png", None);
    assert_eq!(
        app.composer.input,
        "before\n[Attached image: /tmp/a.png] after"
    );
    let mut app = app_with("ab", 1);
    app.insert_media_attachment("image", "/tmp/a.png", None);
    assert_eq!(app.composer.input, "a\n[Attached image: /tmp/a.png]\nb");
}

#[test]
fn moving_between_lines_keeps_the_column() {
    let mut app = new_app();
    app.composer.input = "abc\nxyz\nd".to_string();
    for cursor in [4, 5, 6, 7] {
        app.composer.cursor_position = cursor;
        app.vim_move_up();
        assert_eq!(app.composer.cursor_position, cursor - 4);
        app.vim_move_down();
        assert_eq!(app.composer.cursor_position, cursor);
        app.composer.cursor_position = cursor - 4;
        app.vim_move_down();
        app.vim_move_up();
        assert_eq!(app.composer.cursor_position, cursor - 4);
    }
}

#[test]
fn only_long_inputs_that_are_sent_are_stored() {
    let long = "x".repeat(MAX_SUBMITTED_INPUT_CHARS + 1);
    let mut app = new_app();
    assert_eq!(app.paste_to_store("short"), None);
    assert_eq!(app.paste_to_store(&long), Some(long.clone()));
    let fitting = "x".repeat(MAX_SUBMITTED_INPUT_CHARS);
    assert_eq!(app.paste_to_store(&fitting), None);
    let text = Some(ClipboardContent::Text(long.clone()));
    assert_eq!(app.clipboard_to_store(&text), Some(long.clone()));
    assert_eq!(app.clipboard_to_store(&None), None);

    assert_eq!(app.submission_to_store(), None);
    app.composer.input = " ".repeat(MAX_SUBMITTED_INPUT_CHARS + 1);
    assert_eq!(app.submission_to_store(), None);
    assert_eq!(app.enter_to_store(NOW), None);
    app.composer.input = long.clone();
    assert_eq!(app.submission_to_store(), Some(long.clone()));
    assert_eq!(app.enter_to_store(NOW), Some(long));
    app.composer.paste_burst.extend_window(NOW);
    assert_eq!(app.enter_to_store(NOW), None);
}
