//! The transcript: adding, removing and looking up cells, and scrolling.

use std::collections::HashMap;

use deepseek_session::json::JsonValue;
use deepseek_session::tui::app::transcripts::{HISTORY_FOLD_BATCH, HISTORY_SOFT_CAP};
use deepseek_session::tui::app::App;
use deepseek_session::tui::cells::{
    ActiveCell, ContextReference, HistoryCell, SessionContextReference, ToolCell, ToolDetailRecord,
    ToolStatus,
};
use deepseek_session::tui::settings::{Config, Startup, TuiOptions};
use deepseek_session::tui::viewport::{
    SelectionPoint, TranscriptLineMeta, TranscriptScroll, TranscriptSelection,
};

fn new_app() -> App {
    let options = TuiOptions {
        model: "test-model".to_string(),
        workspace: ".".to_string(),
        config_path: None,
        config_profile: None,
        allow_shell: false,
        use_alt_screen: true,
        use_mouse_capture: false,
        use_bracketed_paste: true,
        max_subagents: 1,
        skills_dir: ".".to_string(),
        memory_path: "memory.md".to_string(),
        notes_path: "notes.txt".to_string(),
        mcp_config_path: "mcp.json".to_string(),
        use_memory: false,
        start_in_agent_mode: true,
        skip_onboarding: false,
        yolo: false,
        resume_session_id: None,
        initial_input: None,
    };
    App::new(options, &Config::default(), Startup::default())
}

fn user(content: &str) -> HistoryCell {
    HistoryCell::User {
        content: content.to_string(),
    }
}

fn tool(name: &str, status: ToolStatus) -> HistoryCell {
    HistoryCell::Tool(ToolCell {
        name: name.to_string(),
        status,
        output: None,
    })
}

fn detail(tool_id: &str) -> ToolDetailRecord {
    ToolDetailRecord {
        tool_id: tool_id.to_string(),
        tool_name: "read_file".to_string(),
        input: JsonValue::Null,
        output: None,
    }
}

fn reference(label: &str) -> ContextReference {
    ContextReference {
        label: label.to_string(),
        target: format!("/work/{label}"),
    }
}

fn content_of(cell: &HistoryCell) -> &str {
    match cell {
        HistoryCell::User { content } => content,
        other => panic!("expected a user cell, got {other:?}"),
    }
}

fn thinking(streaming: bool) -> HistoryCell {
    HistoryCell::Thinking {
        content: "hm".to_string(),
        streaming,
    }
}

fn in_flight(entries: Vec<HistoryCell>) -> Option<ActiveCell> {
    let mut active = ActiveCell::new();
    for entry in entries {
        active.push(entry);
    }
    Some(active)
}

#[test]
fn old_cells_are_folded_beyond_the_cap() {
    let mut app = new_app();
    for n in 0..HISTORY_SOFT_CAP {
        app.push_history_cell(user(&format!("{n}")));
    }
    assert_eq!(app.transcript.history.len(), 5_000);
    app.transcript.tool_cells.insert("early".to_string(), 999);
    app.transcript.tool_cells.insert("late".to_string(), 1_500);
    app.transcript
        .tool_details_by_cell
        .insert(1_500, detail("late"));
    app.transcript.last_fanout_card_index = Some(1_200);
    app.transcript.collapsed_cells.insert(3);
    app.needs_redraw = false;

    app.add_message(user("last"));

    assert_eq!(
        app.transcript.history.len(),
        HISTORY_SOFT_CAP + 1 - HISTORY_FOLD_BATCH + 1
    );
    assert_eq!(
        app.transcript.history_revisions.len(),
        app.transcript.history.len()
    );
    match &app.transcript.history[0] {
        HistoryCell::ArchivedContext {
            level,
            range,
            summary,
            ..
        } => {
            assert_eq!(*level, 0);
            assert_eq!(range, "cells 0-999");
            assert_eq!(
                summary,
                "1000 older transcript cells folded to bound memory. Use /sessions to load a prior session snapshot if needed."
            );
        }
        other => panic!("expected a placeholder, got {other:?}"),
    }
    assert_eq!(content_of(&app.transcript.history[1]), "1000");
    assert_eq!(
        content_of(app.transcript.history.last().expect("a cell")),
        "last"
    );
    assert!(app.transcript.tool_cells.get("early").is_none());
    assert_eq!(app.transcript.tool_cells.get("late"), Some(&500));
    assert!(app.transcript.tool_details_by_cell.contains_key(&500));
    assert_eq!(app.transcript.last_fanout_card_index, Some(200));
    assert!(!app.transcript.collapsed_cells.contains(&3));
    assert!(app.needs_redraw);
}

#[test]
fn cells_are_added_in_batches() {
    let mut app = new_app();
    let version = app.transcript.history_version;
    app.extend_history(vec![user("a"), user("b")]);
    assert_eq!(app.transcript.history.len(), 2);
    assert_eq!(app.transcript.history_version, version + 1);
    assert_ne!(
        app.transcript.history_revisions[0],
        app.transcript.history_revisions[1]
    );
}

#[test]
fn changes_touch_one_revision() {
    let mut app = new_app();
    app.extend_history(vec![user("a"), user("b"), user("c")]);
    let before = app.transcript.history_revisions.clone();
    app.bump_history_cell(1);
    assert_eq!(app.transcript.history_revisions[0], before[0]);
    assert_ne!(app.transcript.history_revisions[1], before[1]);
    assert_eq!(app.transcript.history_revisions[2], before[2]);
    let before = app.transcript.history_revisions.clone();
    app.bump_history_cell(7);
    assert_eq!(app.transcript.history_revisions, before);
}

#[test]
fn revisions_are_brought_in_step() {
    let mut app = new_app();
    app.push_history_cell(user("a"));
    let first = app.transcript.history_revisions[0];
    app.transcript.history.push(user("b"));
    app.resync_history_revisions();
    assert_eq!(app.transcript.history_revisions.len(), 2);
    assert_eq!(app.transcript.history_revisions[0], first);
    app.transcript.history.clear();
    app.mark_history_updated();
    assert!(app.transcript.history_revisions.is_empty());
}

#[test]
fn the_last_cell_is_taken_back() {
    let mut app = new_app();
    assert!(app.pop_history().is_none());
    app.extend_history(vec![user("a"), user("b")]);
    app.record_context_references(0, 0, vec![reference("x")]);
    app.record_context_references(1, 1, vec![reference("y")]);
    let popped = app.pop_history().expect("a cell");
    assert_eq!(content_of(&popped), "b");
    assert_eq!(app.transcript.history_revisions.len(), 1);
    assert_eq!(app.transcript.session_context_references.len(), 1);
    assert_eq!(
        app.transcript.session_context_references[0].reference.label,
        "x"
    );
}

#[test]
fn truncation_drops_what_belongs_to_lost_cells() {
    let mut app = new_app();
    app.extend_history(vec![user("a"), user("b"), user("c")]);
    app.transcript.tool_cells.insert("kept".to_string(), 1);
    app.transcript.tool_cells.insert("lost".to_string(), 2);
    app.transcript.tool_details_by_cell.insert(1, detail("kept"));
    app.transcript.tool_details_by_cell.insert(2, detail("lost"));
    app.transcript.subagent_card_index.insert("agent".to_string(), 2);
    app.transcript.last_fanout_card_index = Some(2);
    app.transcript.collapsed_cells.insert(0);
    app.transcript.collapsed_cells.insert(2);
    app.record_context_references(2, 5, vec![reference("x")]);

    app.truncate_history_to(9);
    assert_eq!(app.transcript.history.len(), 3);

    app.truncate_history_to(2);
    assert_eq!(app.transcript.history.len(), 2);
    assert_eq!(app.transcript.history_revisions.len(), 2);
    assert_eq!(app.transcript.tool_cells.get("kept"), Some(&1));
    assert!(app.transcript.tool_cells.get("lost").is_none());
    assert!(app.transcript.tool_details_by_cell.contains_key(&1));
    assert!(!app.transcript.tool_details_by_cell.contains_key(&2));
    assert!(app.transcript.subagent_card_index.get("agent").is_none());
    assert_eq!(app.transcript.last_fanout_card_index, None);
    assert!(app.transcript.collapsed_cells.contains(&0));
    assert!(!app.transcript.collapsed_cells.contains(&2));
    assert!(app.transcript.session_context_references.is_empty());
}

#[test]
fn clearing_leaves_no_cells() {
    let mut app = new_app();
    app.extend_history(vec![user("a")]);
    app.record_context_references(0, 0, vec![reference("x")]);
    app.transcript.session_artifacts.push("artifact".to_string());
    app.transcript.collapsed_cell_map.push(0);
    let version = app.transcript.history_version;
    app.clear_history();
    assert!(app.transcript.history.is_empty());
    assert!(app.transcript.history_revisions.is_empty());
    assert!(app.transcript.session_context_references.is_empty());
    assert!(app.transcript.session_artifacts.is_empty());
    assert!(app.transcript.collapsed_cell_map.is_empty());
    assert_eq!(app.transcript.history_version, version + 1);
}

#[test]
fn references_are_ordered_by_message() {
    let mut app = new_app();
    app.record_context_references(4, 9, vec![reference("late")]);
    app.record_context_references(7, 1, vec![reference("early"), reference("second")]);
    app.record_context_references(8, 2, Vec::new());
    let labels: Vec<&str> = app
        .transcript
        .session_context_references
        .iter()
        .map(|r| r.reference.label.as_str())
        .collect();
    assert_eq!(labels, vec!["early", "second", "late"]);
}

#[test]
fn stored_references_are_taken_over_for_shown_messages() {
    let mut app = new_app();
    app.record_context_references(0, 0, vec![reference("old")]);
    let stored: Vec<SessionContextReference> = [(3, "b"), (1, "a"), (3, "c"), (5, "hidden")]
        .iter()
        .map(|(message_index, label)| SessionContextReference {
            message_index: *message_index,
            reference: reference(label),
        })
        .collect();
    let shown: HashMap<usize, usize> = [(1, 10), (3, 11)].into_iter().collect();
    app.sync_context_references_from_session(&stored, &shown);
    assert!(!app.transcript.context_references_by_cell.contains_key(&0));
    assert_eq!(
        app.transcript
            .context_references_by_cell
            .get(&11)
            .map(|r| r.len()),
        Some(2)
    );
    let labels: Vec<&str> = app
        .transcript
        .session_context_references
        .iter()
        .map(|r| r.reference.label.as_str())
        .collect();
    assert_eq!(labels, vec!["a", "b", "c"]);
}

#[test]
fn cells_in_flight_become_part_of_the_transcript() {
    let mut app = new_app();
    app.extend_history(vec![user("a")]);
    app.transcript.active_cell = in_flight(vec![thinking(true), tool("t", ToolStatus::Success)]);
    app.transcript.streaming_thinking_active_entry = Some(0);
    app.transcript.tool_cells.insert("call".to_string(), 2);
    app.transcript
        .active_tool_details
        .insert("call".to_string(), detail("call"));
    app.transcript
        .active_tool_details
        .insert("stray".to_string(), detail("stray"));
    app.transcript.exploring_cell = Some(1);
    app.transcript.exploring_entries.insert("call".to_string(), 0);
    assert_eq!(app.virtual_cell_count(), 3);
    assert_eq!(app.next_virtual_cell_index(), 3);

    app.flush_active_cell();

    assert_eq!(app.transcript.history.len(), 3);
    assert!(matches!(
        app.transcript.history[1],
        HistoryCell::Thinking {
            streaming: false,
            ..
        }
    ));
    assert!(app.transcript.active_cell.is_none());
    assert_eq!(app.transcript.streaming_thinking_active_entry, None);
    assert_eq!(app.transcript.exploring_cell, None);
    assert_eq!(app.transcript.exploring_entries.len(), 0);
    assert_eq!(app.transcript.active_tool_details.len(), 0);
    assert_eq!(
        app.transcript
            .tool_details_by_cell
            .get(&2)
            .map(|d| d.tool_id.as_str()),
        Some("call")
    );
    assert_eq!(
        app.transcript
            .tool_details_by_cell
            .get(&1)
            .map(|d| d.tool_id.as_str()),
        Some("stray")
    );
    let version = app.transcript.history_version;
    app.flush_active_cell();
    assert_eq!(app.transcript.history.len(), 3);
    assert_eq!(app.transcript.history_version, version);
}

#[test]
fn recorded_details_are_not_replaced_by_flushing() {
    let mut app = new_app();
    app.transcript.tool_details_by_cell.insert(0, detail("old"));
    app.transcript.active_cell = in_flight(vec![tool("t", ToolStatus::Success)]);
    app.transcript
        .active_tool_details
        .insert("new".to_string(), detail("new"));
    app.flush_active_cell();
    assert_eq!(
        app.transcript
            .tool_details_by_cell
            .get(&0)
            .map(|d| d.tool_id.as_str()),
        Some("old")
    );
}

#[test]
fn an_empty_flight_is_only_taken_note_of() {
    let mut app = new_app();
    app.transcript.active_cell = in_flight(Vec::new());
    let revision = app.transcript.active_cell_revision;
    app.flush_active_cell();
    assert!(app.transcript.active_cell.is_none());
    assert!(app.transcript.history.is_empty());
    assert_eq!(app.transcript.active_cell_revision, revision + 1);
}

#[test]
fn interrupted_cells_no_longer_run() {
    let mut app = new_app();
    app.transcript.active_cell = in_flight(vec![
        tool("running", ToolStatus::Running),
        tool("done", ToolStatus::Success),
        thinking(true),
    ]);
    app.finalize_active_cell_as_interrupted();
    let statuses: Vec<Option<ToolStatus>> = app
        .transcript
        .history
        .iter()
        .map(|cell| match cell {
            HistoryCell::Tool(tool) => Some(tool.status),
            _ => None,
        })
        .collect();
    assert_eq!(
        statuses,
        vec![Some(ToolStatus::Failed), Some(ToolStatus::Success), None]
    );
    assert!(matches!(
        app.transcript.history[2],
        HistoryCell::Thinking {
            streaming: false,
            ..
        }
    ));
}

#[test]
fn cells_are_found_across_the_transcript_and_the_flight() {
    let mut app = new_app();
    app.extend_history(vec![user("a"), user("b")]);
    app.transcript.active_cell = in_flight(vec![user("c")]);
    assert_eq!(
        content_of(app.cell_at_virtual_index(2).expect("a cell")),
        "c"
    );
    assert!(app.cell_at_virtual_index(3).is_none());

    let revisions = app.transcript.history_revisions.clone();
    *app.cell_at_virtual_index_mut(0).expect("a cell") = user("A");
    assert_eq!(content_of(&app.transcript.history[0]), "A");
    assert_ne!(app.transcript.history_revisions[0], revisions[0]);
    assert_eq!(app.transcript.history_revisions[1], revisions[1]);

    let revision = app.transcript.active_cell_revision;
    *app.cell_at_virtual_index_mut(2).expect("a cell") = user("C");
    assert_eq!(
        content_of(app.cell_at_virtual_index(2).expect("a cell")),
        "C"
    );
    assert_eq!(app.transcript.active_cell_revision, revision + 1);
    assert!(app.cell_at_virtual_index_mut(3).is_none());

    app.bump_active_cell_revision();
    assert_eq!(app.transcript.active_cell_revision, revision + 3);
}

#[test]
fn details_are_looked_up_for_cells_and_calls_in_flight() {
    let mut app = new_app();
    app.extend_history(vec![user("a"), user("b"), tool("t", ToolStatus::Success)]);
    app.transcript.tool_details_by_cell.insert(0, detail("first"));
    app.transcript.tool_cells.insert("live".to_string(), 1);
    app.transcript
        .active_tool_details
        .insert("entry".to_string(), detail("live"));
    assert_eq!(
        app.tool_detail_record_for_cell(0)
            .map(|d| d.tool_id.as_str()),
        Some("first")
    );
    assert_eq!(
        app.tool_detail_record_for_cell(1)
            .map(|d| d.tool_id.as_str()),
        Some("live")
    );
    assert!(app.tool_detail_record_for_cell(2).is_none());
    assert!(app.cell_has_detail_target(2));
    assert!(!app.cell_has_detail_target(3));
}

#[test]
fn details_are_opened_for_what_is_selected_or_seen() {
    let mut app = new_app();
    app.extend_history(vec![
        tool("a", ToolStatus::Success),
        user("b"),
        tool("c", ToolStatus::Success),
    ]);
    let line = |cell_index| TranscriptLineMeta::CellLine {
        cell_index,
        line_in_cell: 0,
    };
    let lines = [line(0), TranscriptLineMeta::Spacer, line(1), line(2)];
    assert_eq!(app.detail_cell_index_for_viewport(1, 3, &lines), Some(2));
    assert_eq!(app.detail_cell_index_for_viewport(0, 3, &lines), Some(0));
    // Nothing on screen has details: the last cell that has some is opened.
    assert_eq!(app.detail_cell_index_for_viewport(1, 2, &lines), Some(2));
    assert_eq!(app.detail_cell_index_for_viewport(9, 0, &[]), Some(2));
    app.viewport.transcript_selection = TranscriptSelection {
        anchor: Some(SelectionPoint {
            line_index: 3,
            column: 0,
        }),
        head: Some(SelectionPoint {
            line_index: 0,
            column: 0,
        }),
        dragging: false,
    };
    assert_eq!(app.detail_cell_index_for_viewport(3, 1, &lines), Some(0));
    app.clear_history();
    assert_eq!(app.detail_cell_index_for_viewport(0, 3, &[]), None);
}

#[test]
fn scrolling_is_counted_as_far_as_it_goes() {
    let mut app = new_app();
    app.scroll_up(5);
    app.scroll_down(3);
    assert_eq!(app.viewport.pending_scroll_delta, -2);
    assert!(app.user_scrolled_during_stream);
    app.scroll_up(usize::MAX);
    app.scroll_up(usize::MAX);
    assert_eq!(app.viewport.pending_scroll_delta, i32::MIN);
    app.scroll_to_bottom();
    assert_eq!(app.viewport.pending_scroll_delta, 0);
    assert!(!app.user_scrolled_during_stream);
    app.scroll_down(usize::MAX);
    app.scroll_down(1);
    assert_eq!(app.viewport.pending_scroll_delta, i32::MAX);
}

#[test]
fn new_cells_are_followed_unless_the_user_looks_elsewhere() {
    let mut app = new_app();
    app.viewport.pending_scroll_delta = 7;
    app.add_message(user("a"));
    assert_eq!(app.viewport.pending_scroll_delta, 0);

    app.scroll_up(4);
    app.add_message(user("b"));
    assert_eq!(app.viewport.pending_scroll_delta, -4);

    app.scroll_to_bottom();
    app.viewport.pending_scroll_delta = 7;
    app.viewport.transcript_selection.dragging = true;
    app.add_message(user("c"));
    assert_eq!(app.viewport.pending_scroll_delta, 7);

    app.viewport.transcript_selection.dragging = false;
    app.viewport.transcript_scroll = TranscriptScroll::From { line: 3 };
    app.add_message(user("d"));
    assert_eq!(app.viewport.pending_scroll_delta, 7);
}

#[test]
fn resizing_shows_the_end_again() {
    let mut app = new_app();
    app.push_history_cell(user("a"));
    app.viewport.transcript_scroll = TranscriptScroll::From { line: 3 };
    app.viewport.pending_scroll_delta = 2;
    app.viewport.last_transcript_total = 9;
    app.viewport
        .transcript_cache
        .line_meta
        .push(TranscriptLineMeta::Spacer);
    let version = app.transcript.history_version;
    app.handle_resize(80, 24);
    assert!(app.viewport.transcript_scroll.is_at_tail());
    assert_eq!(app.viewport.pending_scroll_delta, 0);
    assert_eq!(app.viewport.last_transcript_total, 0);
    assert!(app.viewport.transcript_cache.line_meta.is_empty());
    assert_eq!(app.transcript.history_version, version + 1);
    assert!(app.needs_redraw);
}
