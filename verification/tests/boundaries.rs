//! What the library has from other crates, and what it computes around it.

use deepseek_session::compaction::driving::{
    compaction_notes, continue_compaction, start_compaction, CompactionAction, SummaryOutcome,
};
use deepseek_session::compaction::estimation::{
    estimate_input_tokens_conservative, estimate_system_tokens_conservative,
    estimate_text_tokens_conservative, estimate_tokens, estimate_tokens_for_message,
};
use deepseek_session::compaction::extraction::{
    extract_path_from_input, extract_paths_from_message, extract_paths_from_text,
    extract_workflow_context, paths_from_captures,
};
use deepseek_session::compaction::pairing::{enforce_tool_call_pairs, tool_call_pairs_settle};
use deepseek_session::compaction::planning::{
    derive_working_set_paths, has_pin_marker, message_text, plan_compaction, plan_settles,
    should_pin_message, CompactionPlan,
};
use deepseek_session::compaction::pruning::{
    collect_tool_uses, prune_tool_results, tail_chars, tool_args_preview, tool_use_key,
};
use deepseek_session::compaction::rules::{
    should_compact, summary_input_limits_for_model, CompactionConfig, KEEP_RECENT_MESSAGES,
};
use deepseek_session::compaction::summary::{
    begin_compaction, build_formatted_summary_request, build_summary_request, compact_messages,
    merge_system_prompts, parse_anchors, prepare_compaction, retry_decision, summary_from_response,
    summary_instruction, CompactionInput, CompactionStep, RetryDecision,
};
use deepseek_session::errors::{
    classify_error_message, classify_lowercase_message, ErrorCategory,
};
use deepseek_session::json::{json_to_string, JsonValue};
use deepseek_session::models::{
    context_window_for_lowercase_model, context_window_for_model, ContentBlock, Message,
    SystemBlock, SystemPrompt,
};
use deepseek_session::paths::{join_path, normalize_path_candidate, Workspace};
use deepseek_session::text::{char_is_control, char_is_whitespace, to_ascii_lowercase, trim};
use deepseek_session::tui::paste_file::{new_paste_path, paste_rel_path};
use std::collections::BTreeSet;

fn msg(role: &str, text: &str) -> Message {
    Message {
        role: role.to_string(),
        content: vec![ContentBlock::Text {
            text: text.to_string(),
            cache_control: None,
        }],
    }
}

fn tool_use(id: &str, name: &str, path: &str) -> Message {
    Message {
        role: "assistant".to_string(),
        content: vec![ContentBlock::ToolUse {
            id: id.to_string(),
            name: name.to_string(),
            input: JsonValue::Object(vec![("path".to_string(), text(path))]),
            caller: None,
        }],
    }
}

fn tool_result(id: &str, content: &str) -> Message {
    Message {
        role: "user".to_string(),
        content: vec![ContentBlock::ToolResult {
            tool_use_id: id.to_string(),
            content: content.to_string(),
            is_error: None,
            content_blocks: None,
        }],
    }
}

fn text(value: &str) -> JsonValue {
    JsonValue::Str(value.to_string())
}

fn to_value(value: &JsonValue) -> serde_json::Value {
    match value {
        JsonValue::Null => serde_json::Value::Null,
        JsonValue::Bool(b) => serde_json::Value::Bool(*b),
        JsonValue::Number(n) => serde_json::from_str(n).expect("a number"),
        JsonValue::Str(s) => serde_json::Value::String(s.clone()),
        JsonValue::Array(items) => serde_json::Value::Array(items.iter().map(to_value).collect()),
        JsonValue::Object(fields) => serde_json::Value::Object(
            fields
                .iter()
                .map(|(name, value)| (name.clone(), to_value(value)))
                .collect(),
        ),
    }
}

fn config(token_threshold: usize) -> CompactionConfig {
    CompactionConfig {
        enabled: true,
        token_threshold,
        auto_floor_tokens: 0,
        ..CompactionConfig::default()
    }
}

#[test]
fn json_is_written_as_serde_json_writes_it() {
    let every_ascii: String = (0u8..=127).map(char::from).collect();
    let values = [
        JsonValue::Null,
        JsonValue::Bool(true),
        JsonValue::Bool(false),
        JsonValue::Number("-12".to_string()),
        JsonValue::Number("0.5".to_string()),
        text(""),
        text(&every_ascii),
        text("é 你好 😀 \u{2028}\u{7f}"),
        JsonValue::Array(Vec::new()),
        JsonValue::Array(vec![text("a"), JsonValue::Null, JsonValue::Array(vec![text("\"")])]),
        JsonValue::Object(Vec::new()),
        JsonValue::Object(vec![
            ("a\n".to_string(), text("x")),
            (
                "b".to_string(),
                JsonValue::Object(vec![("c".to_string(), JsonValue::Bool(true))]),
            ),
        ]),
    ];
    for value in &values {
        assert_eq!(
            json_to_string(value),
            serde_json::to_string(&to_value(value)).expect("JSON")
        );
    }
}

#[test]
fn later_fields_of_a_name_count() {
    let value = JsonValue::Object(vec![
        ("a".to_string(), text("first")),
        ("a".to_string(), text("second")),
    ]);
    assert_eq!(value.str_field("a"), Some("second"));
    assert_eq!(value.get("b"), None);
    assert_eq!(JsonValue::Null.get("a"), None);
}

#[test]
fn paths_are_found_by_the_pattern() {
    assert_eq!(
        extract_paths_from_text(
            "see src/a.rs, then Cargo.toml and x/y.py; lib/z.yml:3",
            None
        ),
        vec!["src/a.rs", "Cargo.toml", "lib/z.yml"]
    );
    let captured = vec![
        (Some("src/a.rs".to_string()), None),
        (None, Some("README.md".to_string())),
        (None, None),
        (Some("../b.rs".to_string()), None),
    ];
    assert_eq!(
        paths_from_captures(&captured, None),
        vec!["src/a.rs", "README.md"]
    );
}

#[test]
fn paths_are_brought_to_their_normal_form() {
    let workspace = Workspace {
        root: "/work/project/".to_string(),
        existing: vec!["Makefile".to_string()],
    };
    assert_eq!(normalize_path_candidate("", None), None);
    assert_eq!(normalize_path_candidate("Makefile", None), None);
    assert_eq!(
        normalize_path_candidate("Makefile", Some(&workspace)),
        Some("Makefile".to_string())
    );
    assert_eq!(
        normalize_path_candidate("././src/x", None),
        Some("src/x".to_string())
    );
    assert_eq!(normalize_path_candidate("/etc/passwd", None), None);
    assert_eq!(
        normalize_path_candidate("/etc/passwd", Some(&workspace)),
        None
    );
    assert_eq!(
        normalize_path_candidate("/work/project/src/lib.rs", Some(&workspace)),
        Some("src/lib.rs".to_string())
    );
    assert_eq!(join_path("/work", "a/b"), "/work/a/b");
}

#[test]
fn messages_are_classified_in_any_case() {
    let cases = [
        ("RATE LIMIT reached", ErrorCategory::RateLimit),
        ("Request TIMED OUT", ErrorCategory::Timeout),
        ("Unauthorized", ErrorCategory::Authentication),
        ("DNS lookup", ErrorCategory::Network),
        ("cannot PARSE", ErrorCategory::Parse),
        ("Invalid field", ErrorCategory::InvalidInput),
        ("something else", ErrorCategory::Internal),
    ];
    for (message, category) in cases {
        assert_eq!(classify_error_message(message), category, "{message}");
        assert_eq!(
            classify_lowercase_message(&message.to_lowercase()),
            category
        );
    }
    assert_eq!(
        classify_lowercase_message("DNS"),
        ErrorCategory::Internal
    );
}

#[test]
fn windows_are_known_in_any_case() {
    assert_eq!(context_window_for_model("DEEPSEEK-V4-PRO"), Some(1_000_000));
    assert_eq!(
        context_window_for_lowercase_model("deepseek-v4-pro"),
        Some(1_000_000)
    );
    assert_eq!(context_window_for_lowercase_model("DEEPSEEK-V4-PRO"), None);
    assert_eq!(context_window_for_model("deepseek-v4-128k"), Some(128_000));
    assert_eq!(context_window_for_model("gpt"), None);
}

#[test]
fn marked_texts_are_pinned() {
    let none: Vec<String> = Vec::new();
    assert!(should_pin_message("PANIC at noon", &none));
    assert!(should_pin_message("*** Begin Patch", &none));
    assert!(!should_pin_message("all is well", &none));
    assert!(should_pin_message(
        "look at src/a.rs",
        &vec!["src/a.rs".to_string()]
    ));
    assert!(!should_pin_message(
        "look at SRC/A.RS",
        &vec!["src/a.rs".to_string()]
    ));
    assert!(has_pin_marker("a stack trace"));
    assert!(!has_pin_marker("A STACK TRACE"));
}

#[test]
fn pasted_files_are_named_by_time_and_chance() {
    assert_eq!(
        paste_rel_path("2026-01-02-030405", "0123abcd-rest"),
        ".deepseek/pastes/paste-2026-01-02-030405-0123abcd.md"
    );
    let path = new_paste_path();
    let rest = path
        .strip_prefix(".deepseek/pastes/paste-")
        .and_then(|rest| rest.strip_suffix(".md"))
        .expect("a paste path");
    let (timestamp, identifier) = rest.rsplit_once('-').expect("two parts");
    assert_eq!(timestamp.len(), 17);
    assert!(timestamp.chars().all(|c| c.is_ascii_digit() || c == '-'));
    assert_eq!(identifier.len(), 8);
    assert!(identifier.chars().all(|c| c.is_ascii_hexdigit()));
    assert_ne!(new_paste_path(), path);
}

#[test]
fn characters_are_told_apart_as_std_tells_them() {
    for code in 0..=0x10_ffffu32 {
        if let Some(c) = char::from_u32(code) {
            assert_eq!(char_is_whitespace(c), c.is_whitespace(), "{code:x}");
            assert_eq!(char_is_control(c), c.is_control(), "{code:x}");
        }
    }
    assert_eq!(to_ascii_lowercase("AbÉ"), "abÉ");
    assert_eq!(trim("\u{3000} a b\t\n"), "a b");
}

#[test]
fn tokens_are_estimated() {
    assert_eq!(estimate_tokens(&[msg("user", "12345678")]), 2);
    assert_eq!(estimate_tokens(&[msg("user", "ééé")]), 1);
    let round = Message {
        role: "assistant".to_string(),
        content: vec![
            ContentBlock::Thinking {
                thinking: "x".repeat(40),
            },
            ContentBlock::ToolUse {
                id: "t".to_string(),
                name: "n".to_string(),
                input: JsonValue::Object(vec![("a".to_string(), text("b"))]),
                caller: None,
            },
        ],
    };
    assert_eq!(estimate_tokens_for_message(&round, true), 12);
    assert_eq!(estimate_tokens_for_message(&round, false), 2);
    assert_eq!(estimate_tokens(&[round]), 12);
    assert_eq!(estimate_text_tokens_conservative("1234"), 2);
    assert_eq!(estimate_text_tokens_conservative(""), 0);
    let system = SystemPrompt::Text("123456".to_string());
    assert_eq!(estimate_system_tokens_conservative(Some(&system)), 2);
    assert_eq!(estimate_system_tokens_conservative(None), 0);
    assert_eq!(
        estimate_input_tokens_conservative(&[msg("user", &"y".repeat(12))], Some(&system)),
        5 + 2 + 60
    );
}

#[test]
fn tool_calls_are_described() {
    let message = tool_use("c", "read_file", "src/a.rs");
    assert_eq!(
        message_text(&message),
        "[tool_use:read_file] {\"path\":\"src/a.rs\"}\n"
    );
    let input = JsonValue::Object(vec![("path".to_string(), text("src/a.rs"))]);
    assert_eq!(
        tool_use_key("read_file", &input),
        "read_file:{\"path\":\"src/a.rs\"}"
    );
    assert_eq!(tool_args_preview(&input), "{\"path\":\"src/a.rs\"}");
    assert_eq!(
        tool_args_preview(&text(&"a".repeat(200))).chars().count(),
        120
    );
    assert_eq!(tail_chars("abcé", 2), "cé");
    assert_eq!(tail_chars("abc", 0), "");
    assert_eq!(tail_chars("abc", 9), "abc");
    let uses = collect_tool_uses(&[
        tool_use("c", "read_file", "a.rs"),
        tool_use("c", "write_file", "b.rs"),
    ]);
    let calls: Vec<(&str, &str)> = uses
        .iter()
        .map(|u| (u.name.as_str(), u.key.as_str()))
        .collect();
    assert_eq!(
        calls,
        vec![
            ("read_file", "read_file:{\"path\":\"a.rs\"}"),
            ("write_file", "write_file:{\"path\":\"b.rs\"}"),
        ]
    );
    // The later of two calls with one identifier counts.
    let mut messages = vec![
        tool_use("c", "read_file", "a.rs"),
        tool_use("c", "write_file", "b.rs"),
        tool_result("c", &"v".repeat(300)),
    ];
    assert!(prune_tool_results(&mut messages, 0) > 0);
    assert!(matches!(
        &messages[2].content[0],
        ContentBlock::ToolResult { content, .. } if content.starts_with("[write_file] tool result")
    ));
}

#[test]
fn pruned_results_say_what_they_were() {
    let body = "v".repeat(300);
    let mut messages = vec![
        tool_use("c", "read_file", "Cargo.toml"),
        tool_result("c", &body),
        msg("user", "next"),
    ];
    let saved = prune_tool_results(&mut messages, 1);
    let expected = "[read_file] tool result pruned (300 bytes; args: {\"path\":\"Cargo.toml\"})";
    assert_eq!(saved, 300 - expected.len());
    assert!(matches!(
        &messages[1].content[0],
        ContentBlock::ToolResult { content, .. } if content == expected
    ));
    assert_eq!(prune_tool_results(&mut messages, 1), 0);
}

#[test]
fn workflows_are_described() {
    let messages = vec![
        tool_use("1", "read_file", "/work/project/src/a.rs"),
        tool_use("2", "read_file", "/work/project/src/a.rs"),
        msg("user", "TODO: finish"),
    ];
    let workspace = Workspace {
        root: "/work/project".to_string(),
        existing: Vec::new(),
    };
    assert_eq!(
        extract_workflow_context(&messages, Some(&workspace)),
        "**Files Modified/Read:**\n- `src/a.rs`\n\n**Tools Used:** read_file, read_file\n\n**Tasks/TODOs Identified:**\n- TODO: finish\n\n"
    );
    assert_eq!(
        extract_workflow_context(&[], None),
        "No specific workflow context detected. Continue assisting the user with their current task.\n"
    );
    assert_eq!(
        extract_path_from_input(&JsonValue::Object(vec![
            ("command".to_string(), text("ls")),
            ("where".to_string(), text("a.b")),
        ])),
        Some("a.b".to_string())
    );
    assert_eq!(
        extract_paths_from_message(&messages[0], Some(&workspace)),
        vec!["src/a.rs"]
    );
}

#[test]
fn working_sets_are_bounded() {
    let many: String = (0..40).map(|n| format!("src/f{n}.rs ")).collect();
    let messages = vec![msg("user", "src/seed.rs"), msg("user", &many)];
    let paths = derive_working_set_paths(&messages, None, &[0, 9]);
    assert_eq!(paths.len(), 24);
    assert_eq!(paths[0], "src/seed.rs");
}

#[test]
fn plans_keep_what_is_worth_keeping() {
    let mut messages: Vec<Message> = (0..12).map(|n| msg("user", &format!("note {n}"))).collect();
    messages[2] = msg("assistant", "error: it broke");
    let plan = plan_compaction(&messages, None, KEEP_RECENT_MESSAGES, Some(&[5, 99]), None);
    let kept: Vec<usize> = plan.pinned_indices.iter().copied().collect();
    assert_eq!(kept, vec![2, 5, 8, 9, 10, 11]);
    assert_eq!(plan.summarize_indices, vec![0, 1, 3, 4, 6, 7]);
    let nothing = plan_compaction(&[], None, 4, None, None);
    assert!(nothing.pinned_indices.is_empty());
    assert!(nothing.summarize_indices.is_empty());
}

#[test]
fn plain_messages_stay_pinned() {
    let messages = vec![msg("user", "a"), tool_use("x", "t", "p"), msg("user", "b")];
    let mut pinned = BTreeSet::from([0, 1, 2]);
    enforce_tool_call_pairs(&messages, &mut pinned);
    assert_eq!(pinned, BTreeSet::from([0, 2]));
    let pair = vec![
        msg("user", "a"),
        tool_use("x", "t", "p"),
        tool_result("x", "ok"),
    ];
    let mut one = BTreeSet::from([2]);
    enforce_tool_call_pairs(&pair, &mut one);
    assert_eq!(one, BTreeSet::from([1, 2]));
    let mut empty = BTreeSet::new();
    enforce_tool_call_pairs(&messages, &mut empty);
    assert!(empty.is_empty());
}

#[test]
fn few_messages_are_not_compacted() {
    let long = "x".repeat(4_000);
    let messages: Vec<Message> = (0..9).map(|_| msg("user", &long)).collect();
    assert!(!should_compact(&messages, &config(1_000), None, None, None));
    let messages: Vec<Message> = (0..10).map(|_| msg("user", &long)).collect();
    assert!(should_compact(&messages, &config(1_000), None, None, None));
}

#[test]
fn limits_follow_the_window() {
    let small = summary_input_limits_for_model("unknown");
    assert_eq!(small.max_tokens, 1_024);
    assert_eq!(small.word_limit, 500);
    assert_eq!(small.input_max_chars, 24_000);
    let large = summary_input_limits_for_model("deepseek-v4-pro");
    assert_eq!(large.max_tokens, 2_048);
    assert_eq!(large.word_limit, 900);
    assert_eq!(large.text_snippet_chars, 2_000);
}

#[test]
fn transient_failures_are_tried_three_times_more() {
    let cases = [(0, 1_000), (1, 2_000), (2, 4_000)];
    for (attempt, delay_ms) in cases {
        assert_eq!(
            retry_decision(attempt, "connection reset"),
            RetryDecision::RetryAfter { delay_ms }
        );
    }
    assert_eq!(retry_decision(3, "connection reset"), RetryDecision::GiveUp);
    assert_eq!(retry_decision(0, "invalid request"), RetryDecision::GiveUp);
}

#[test]
fn pruning_alone_can_be_enough() {
    let body = "v".repeat(8_000);
    let mut messages = vec![tool_use("c", "grep", "a"), tool_result("c", &body)];
    messages.extend((0..10).map(|n| msg("user", &format!("note {n}"))));
    match prepare_compaction(&messages, &config(500), None, None, None) {
        CompactionInput::Pruned(result) => {
            assert_eq!(result.messages.len(), 12);
            assert!(result.summary_prompt.is_none());
            assert!(result.removed_messages.is_empty());
            assert_eq!(result.retries_used, 0);
        }
        CompactionInput::Compact(_) => panic!("pruning should have been enough"),
    }
    match prepare_compaction(&messages, &config(5_000), None, None, None) {
        CompactionInput::Compact(input) => assert_eq!(input.len(), 12),
        CompactionInput::Pruned(_) => panic!("nothing was due"),
    }
}

#[test]
fn compactions_split_and_summarize() {
    let messages: Vec<Message> = (0..7).map(|n| msg("user", &format!("note {n}"))).collect();
    let config = CompactionConfig {
        model: "unknown".to_string(),
        ..config(10)
    };
    let step = begin_compaction(&messages, &config, None, None, None);
    let CompactionStep::Summarize {
        kept,
        removed,
        request,
        cache_aligned,
    } = step
    else {
        panic!("expected a summary");
    };
    assert_eq!(kept, messages[3..].to_vec());
    assert_eq!(removed, messages[..3].to_vec());
    assert!(!cache_aligned);
    assert_eq!(request.temperature_thousandths, Some(300));
    assert_eq!(request.max_tokens, 1_024);
    assert_eq!(
        request.messages,
        vec![msg(
            "user",
            &format!(
                "{}\n\n---\n\nUser: note 0\n\nUser: note 1\n\nUser: note 2\n\n",
                summary_instruction(500)
            )
        )]
    );

    let (kept, prompt, removed) = compact_messages(
        kept,
        removed,
        "SUMMARY",
        Some("keep\n---\n\n---\nthis"),
        &config,
        None,
    );
    assert_eq!(kept.len(), 4);
    assert_eq!(removed.len(), 3);
    let Some(SystemPrompt::Blocks(blocks)) = prompt else {
        panic!("expected blocks");
    };
    assert_eq!(blocks.len(), 1);
    assert!(blocks[0].text.starts_with("## Pinned Facts (User Anchors)\n\n"));
    assert!(blocks[0].text.contains("- keep\n- this\n\n---\n\n## 📋"));
    assert!(blocks[0]
        .text
        .contains("## 📋 Conversation Summary (Auto-Generated)\n\nSUMMARY\n\n---\n\n## 🔍 Workflow Context\n\n"));
    assert!(blocks[0].text.ends_with("Pinned messages follow:"));
    assert_eq!(
        blocks[0].cache_control.as_ref().map(|c| c.cache_type.as_str()),
        Some("ephemeral")
    );

    match begin_compaction(&messages[..4], &config, None, None, None) {
        CompactionStep::Unchanged(same) => assert_eq!(same, messages[..4].to_vec()),
        CompactionStep::Summarize { .. } => panic!("nothing to summarize"),
    }
}

#[test]
fn long_transcripts_are_cut_in_the_middle() {
    let limits = summary_input_limits_for_model("unknown");
    let messages: Vec<Message> = (0..60).map(|_| msg("assistant", &"w".repeat(900))).collect();
    let request = build_formatted_summary_request("unknown", &messages, limits);
    let ContentBlock::Text { text, .. } = &request.messages[0].content[0] else {
        panic!("expected a text");
    };
    // Each of 60 texts is cut to 800 characters behind its speaker.
    let total = 60 * ("Assistant: ".len() + 800 + 2);
    let omitted = total - 14_000 - 6_000;
    assert!(text.contains(&format!(
        "\n\n[... {omitted} characters omitted before summary ...]\n\n"
    )));
    assert_eq!(
        request.system,
        Some(SystemPrompt::Text(
            "You are a helpful assistant that creates concise conversation summaries.".to_string()
        ))
    );
    let (_, cache_aligned) = build_summary_request("deepseek-v4-pro", &messages);
    assert!(cache_aligned);
}

#[test]
fn summaries_are_the_texts_of_a_reply() {
    let content = vec![
        ContentBlock::Text {
            text: "one".to_string(),
            cache_control: None,
        },
        ContentBlock::Thinking {
            thinking: "hm".to_string(),
        },
        ContentBlock::Text {
            text: "two".to_string(),
            cache_control: None,
        },
    ];
    assert_eq!(summary_from_response(&content), "one\ntwo");
    assert_eq!(summary_from_response(&Vec::new()), "");
    assert_eq!(parse_anchors(" a \n---\n\n---\nb"), vec!["a", "b"]);
}

#[test]
fn prompts_are_merged_in_order() {
    let original = SystemPrompt::Text("o".to_string());
    let merged = merge_system_prompts(Some(&original), Some(SystemPrompt::Text("s".to_string())));
    let block = |text: &str| SystemBlock {
        block_type: "text".to_string(),
        text: text.to_string(),
        cache_control: None,
    };
    assert_eq!(
        merged,
        Some(SystemPrompt::Blocks(vec![block("o"), block("s")]))
    );
}

#[test]
fn estimates_grow_with_messages() {
    let mut messages = vec![msg("user", "12345678")];
    let before = estimate_tokens(&messages);
    messages.push(msg("assistant", ""));
    assert_eq!(estimate_tokens(&messages), before);
    messages.push(msg("assistant", "1234"));
    assert_eq!(estimate_tokens(&messages), before + 1);
}

#[test]
fn chains_of_calls_may_outlast_the_repair() {
    // Message n answers call n - 1 and makes call n; the last call has no
    // answer. The pins spread along the chain before they are taken back.
    let chain: Vec<Message> = (0..12)
        .map(|n| Message {
            role: "assistant".to_string(),
            content: vec![
                ContentBlock::ToolResult {
                    tool_use_id: format!("call-{}", n - 1),
                    content: "ok".to_string(),
                    is_error: None,
                    content_blocks: None,
                },
                ContentBlock::ToolUse {
                    id: format!("call-{n}"),
                    name: "t".to_string(),
                    input: JsonValue::Null,
                    caller: None,
                },
            ],
        })
        .collect();
    let chain = &chain[1..];
    let mut messages = vec![tool_use("call-0", "t", "p")];
    messages.extend(chain.iter().cloned());
    let mut pinned = BTreeSet::from([0]);
    assert!(!tool_call_pairs_settle(&messages, &pinned));
    assert!(!plan_settles(&messages, None, 0, Some(&[0]), None));
    enforce_tool_call_pairs(&messages, &mut pinned);
    assert!(pinned.contains(&0));
    assert!(!pinned.contains(&11));
    // Taking back the whole chain takes the last step that is allowed.
    let last = BTreeSet::from([11]);
    assert!(!tool_call_pairs_settle(&messages, &last));
    let mut pinned = last;
    enforce_tool_call_pairs(&messages, &mut pinned);
    assert!(pinned.is_empty());
    assert!(tool_call_pairs_settle(&messages[..9], &BTreeSet::from([8])));
    let notes = compaction_notes(&messages, None, None, None);
    let pairs = notes.unsettled.expect("a repair that does not settle");
    assert_eq!((pairs.steps, pairs.messages, pairs.pinned), (12, 12, 0));
    assert!(tool_call_pairs_settle(&messages, &BTreeSet::new()));
}

#[test]
fn compactions_are_noted() {
    let plain: Vec<Message> = (0..7).map(|n| msg("user", &format!("note {n}"))).collect();
    let notes = compaction_notes(&plain, None, None, None);
    assert_eq!(notes.saved_bytes, 0);
    assert!(notes.unsettled.is_none());

    let mut messages = vec![tool_use("a", "read_file", "p")];
    messages.push(Message {
        role: "user".to_string(),
        content: vec![ContentBlock::ToolResult {
            tool_use_id: "a".to_string(),
            content: "long ".repeat(400),
            is_error: None,
            content_blocks: None,
        }],
    });
    messages.extend(plain.iter().cloned());
    let mut pruned = messages.clone();
    let saved = prune_tool_results(&mut pruned, KEEP_RECENT_MESSAGES);
    assert!(saved > 0);
    assert_eq!(compaction_notes(&messages, None, None, None).saved_bytes, saved);
}

#[test]
fn compactions_ask_again_and_finish() {
    let messages: Vec<Message> = (0..7).map(|n| msg("user", &format!("note {n}"))).collect();
    let config = config(10);
    let mut action = start_compaction(&messages, &config, None, None, None);
    let mut delays = Vec::new();
    for _ in 0..3 {
        let CompactionAction::Ask {
            run,
            request,
            delay_ms,
            ..
        } = action
        else {
            panic!("expected a request");
        };
        assert_eq!(request.messages.len(), 4);
        delays.push(delay_ms);
        let failure = SummaryOutcome::Failure("503 Service Unavailable".to_string());
        action = continue_compaction(run, failure, None, &config, None);
    }
    let CompactionAction::Ask { run, delay_ms, .. } = action else {
        panic!("expected a request");
    };
    delays.push(delay_ms);
    assert_eq!(delays, vec![0, 1_000, 2_000, 4_000]);
    let summary = SummaryOutcome::Summary("done".to_string());
    match continue_compaction(run, summary, None, &config, None) {
        CompactionAction::Finish(result) => {
            assert_eq!(result.retries_used, 3);
            assert_eq!(result.messages, messages[3..].to_vec());
            assert_eq!(result.removed_messages, messages[..3].to_vec());
            assert!(result.summary_prompt.is_some());
        }
        _ => panic!("expected a result"),
    }
}

#[test]
fn compactions_give_up() {
    let messages: Vec<Message> = (0..7).map(|n| msg("user", &format!("note {n}"))).collect();
    let config = config(10);
    let CompactionAction::Ask { run, .. } =
        start_compaction(&messages, &config, None, None, None)
    else {
        panic!("expected a request");
    };
    let failure = SummaryOutcome::Failure("401 Unauthorized".to_string());
    assert!(matches!(
        continue_compaction(run, failure, None, &config, None),
        CompactionAction::GiveUp
    ));
    let CompactionAction::Ask { mut run, .. } =
        start_compaction(&messages, &config, None, None, None)
    else {
        panic!("expected a request");
    };
    run.failures = 3;
    let failure = SummaryOutcome::Failure("timeout".to_string());
    assert!(matches!(
        continue_compaction(run, failure, None, &config, None),
        CompactionAction::GiveUp
    ));
    assert!(matches!(
        start_compaction(&messages[..2], &config, None, None, None),
        CompactionAction::Finish(_)
    ));
}

#[test]
fn only_plain_names_are_looked_up() {
    let bare = Workspace {
        root: "/work".to_string(),
        existing: vec![],
    };
    let full = Workspace {
        root: "/work".to_string(),
        existing: vec![".".to_string(), "notes".to_string(), "lib/a".to_string()],
    };
    for candidate in ["lib/a", "lib/b", "/work/lib/a", "Cargo.toml"] {
        assert_eq!(
            normalize_path_candidate(candidate, Some(&bare)),
            normalize_path_candidate(candidate, Some(&full))
        );
    }
    assert_eq!(normalize_path_candidate("notes", Some(&bare)), None);
    assert_eq!(
        normalize_path_candidate("notes", Some(&full)).as_deref(),
        Some("notes")
    );
    assert_eq!(
        normalize_path_candidate(".", Some(&full)).as_deref(),
        Some(".")
    );
}

#[test]
fn estimates_of_joined_conversations_add_up() {
    let first = vec![
        msg("user", "some words to count"),
        tool_use("a", "read_file", "src/lib.rs"),
    ];
    let second = vec![tool_result("a", "content of the file"), msg("user", "go on")];
    let mut joined = first.clone();
    joined.extend(second.iter().cloned());
    assert_eq!(
        estimate_tokens(&joined),
        estimate_tokens(&first) + estimate_tokens(&second)
    );
}

#[test]
fn plans_start_empty_and_are_copied() {
    let none = CompactionPlan::default();
    assert!(none.pinned_indices.is_empty());
    assert!(none.summarize_indices.is_empty());
    let plan = plan_compaction(&[msg("user", "a")], None, 1, None, None);
    let copy = plan.clone();
    assert_eq!(copy.pinned_indices, plan.pinned_indices);
    assert_eq!(copy.summarize_indices, plan.summarize_indices);
    assert!(format!("{plan:?}").contains("pinned_indices"));
}
