//! Compaction, restoring, plans and what is counted of a history.

use quine_core::arguments::{ArgumentValue, Arguments, Member};
use quine_core::channel::CoreOutput;
use quine_core::compaction::{
    apply_compaction_plan, archived_result_file_name, archived_transcript_file_name,
    auto_compact_threshold, build_micro_compacted_history, compaction_plan_from_snapshot,
    fits_in_history, legacy_compaction_plan, prepare_tool_result_for_history,
    render_archived_tool_result, replace_archived_tool_results, result_to_archive,
    should_auto_compact, should_auto_compact_at, split_history_for_compaction, summarizer_messages, CompactionSnapshot,
    CompactionTrigger, MAX_TOOL_RESULT_CHARS_IN_HISTORY,
};
use quine_core::message::{
    latest_user_message_index, Message, MessageContent, PendingToolCall, Role, ToolDefinition,
    ToolUseRequest,
};
use quine_core::plan::{
    extract_plan_id_from_tool_output, normalize_plan_tool_arguments, plan_progress,
    plan_progress_with_prompt, plan_update, PlanAction, PlanState,
};
use quine_core::prompt::{
    build_combined_system_prompt, canonicalize_prompt_cache_tokens, estimate_prompt_cache_usage,
    normalize_listing_summary, previous_selection, prompt_memory_mode, sort_tools,
    ProjectInstructions, PromptMemoryMode, SkillPrompt,
};
use quine_core::restore::sanitize_restored_history;
use quine_core::session::SessionId;

fn member(key: &str, value: &str) -> Member {
    Member {
        key: key.to_string(),
        value: ArgumentValue::Text(value.to_string()),
    }
}

fn request(id: &str, name: &str, key: &str, value: &str) -> ToolUseRequest {
    ToolUseRequest {
        tool_use_id: id.to_string(),
        tool_name: name.to_string(),
        arguments: Arguments::Object(vec![member(key, value)]),
    }
}

fn user(text: &str) -> Message {
    Message::user(text.to_string())
}

fn assistant(text: &str) -> Message {
    Message::assistant(text.to_string())
}

fn system(text: &str) -> Message {
    Message::system(text.to_string())
}

fn tool_use(request: ToolUseRequest) -> Message {
    Message::assistant_tool_use(None, vec![request])
}

fn tool_result(id: &str, output: &str) -> Message {
    Message::tool_result(id.to_string(), output.to_string(), false)
}

fn text_of(message: &Message) -> &str {
    match &message.content {
        MessageContent::Text(text) => text,
        other => panic!("expected a text, got {other:?}"),
    }
}

fn output_of(message: &Message) -> &str {
    match &message.content {
        MessageContent::ToolResult { output, .. } => output,
        other => panic!("expected a tool result, got {other:?}"),
    }
}

#[test]
fn micro_compact_replaces_old_tool_results() {
    let history = vec![
        user("first"),
        tool_use(request("id-1", "bash", "cmd", "pwd")),
        tool_result("id-1", "very long output"),
        user("second"),
    ];

    let compacted = build_micro_compacted_history(&history);
    match &compacted[2].content {
        MessageContent::ToolResult { output, .. } => {
            assert!(output.contains("bash"));
            assert!(output.contains("elided"));
        }
        _ => panic!("expected tool result"),
    }
}

#[test]
fn micro_compact_preserves_live_tool_tail() {
    let history = vec![
        user("first"),
        tool_use(request("id-1", "bash", "cmd", "pwd")),
        tool_result("id-1", "tail output"),
    ];

    let compacted = build_micro_compacted_history(&history);
    match &compacted[2].content {
        MessageContent::ToolResult { output, .. } => {
            assert_eq!(output, "tail output");
        }
        _ => panic!("expected tool result"),
    }
}

#[test]
fn split_history_keeps_latest_user_message_live() {
    let history = vec![
        system("system"),
        user("old"),
        assistant("answer"),
        user("latest"),
    ];

    let (prefix, tail) = split_history_for_compaction(&history);
    assert_eq!(prefix.len(), 3);
    assert_eq!(tail.len(), 1);
}

#[test]
fn archive_old_tool_results_rewrites_only_non_live_results() {
    let history = vec![
        tool_use(request("id-1", "bash", "cmd", "pwd")),
        tool_result("id-1", "old output"),
        tool_use(request("id-2", "bash", "cmd", "ls")),
        tool_result("id-2", "live output"),
    ];
    let mut archives = Vec::new();
    for index in 0..history.len() {
        archives.push(match result_to_archive(&history, index) {
            Some((id, output)) => {
                assert_eq!(output, "old output");
                Some(format!("/archive/{id}.txt"))
            }
            None => None,
        });
    }

    let rewritten = replace_archived_tool_results(&history, &archives);

    match &rewritten[1].content {
        MessageContent::ToolResult { output, .. } => {
            assert!(output.starts_with("[tool result archived: bash, ok"));
        }
        _ => panic!("expected archived old tool result"),
    }
    match &rewritten[3].content {
        MessageContent::ToolResult { output, .. } => {
            assert_eq!(output, "live output");
        }
        _ => panic!("expected live tool result"),
    }
    // What was archived is not archived again.
    for index in 0..rewritten.len() {
        assert!(result_to_archive(&rewritten, index).is_none());
    }
}

#[test]
fn prepare_tool_result_for_history_keeps_small_output_inline() {
    let output = prepare_tool_result_for_history(
        "toolu_small",
        "bash",
        "small output",
        false,
        "/archive/never-used",
    );

    assert_eq!(output, "small output");
    assert!(fits_in_history("small output"));
}

#[test]
fn prepare_tool_result_for_history_archives_oversized_output() {
    let oversized = (1..=13)
        .map(|line| format!("line {line}"))
        .collect::<Vec<_>>()
        .join("\n")
        + "\n"
        + &"x".repeat(MAX_TOOL_RESULT_CHARS_IN_HISTORY + 128);
    assert!(!fits_in_history(&oversized));

    let output = prepare_tool_result_for_history(
        "toolu_big",
        "bash",
        &oversized,
        false,
        "/archive/toolu_big.txt",
    );

    assert!(output.contains("[tool result archived: bash, ok"));
    assert!(output.contains("archive="));
    assert!(output.contains("line 1"));
    assert!(output.contains("line 12"));
    assert!(!output.contains("line 13"));
    assert!(output.contains("[... omitted 2 more line(s); full tool result archived at "));
}

#[test]
fn archives_have_safe_names() {
    assert_eq!(
        archived_result_file_name("20260102T030405Z", "toolu/../1 a"),
        "20260102T030405Z-toolu____1_a.txt"
    );
    assert_eq!(archived_transcript_file_name(7), "0007.json");
    assert_eq!(archived_transcript_file_name(12345), "12345.json");
}

#[test]
fn a_failed_result_is_marked_in_its_archive_line() {
    let line = render_archived_tool_result("bash", "toolu_1", true, "no such file", "/a/b.txt");
    assert!(line.starts_with("[tool result archived: bash, error"));
    assert!(line.contains("/a/b.txt"));
}

#[test]
fn compaction_is_due_at_a_share_of_the_window() {
    assert_eq!(auto_compact_threshold(None), None);
    let threshold = auto_compact_threshold(Some(200_000)).unwrap();
    assert_eq!(threshold, 120_000);
    assert!(!should_auto_compact(Some(200_000), None));
    assert!(!should_auto_compact(Some(200_000), Some(threshold - 1)));
    assert!(should_auto_compact(Some(200_000), Some(threshold)));
    assert!(!should_auto_compact(None, Some(u64::MAX)));
    assert!(should_auto_compact_at(Some(100), Some(50), 50));
    assert!(!should_auto_compact_at(Some(100), Some(49), 50));
    assert!(should_auto_compact_at(Some(200_000), Some(threshold), 60));
    assert!(!should_auto_compact_at(Some(200_000), Some(threshold - 1), 60));
    assert!(!should_auto_compact_at(Some(200_000), Some(threshold), 100));
    assert!(should_auto_compact_at(Some(u64::MAX), Some(u64::MAX / 100), 90));
    assert!(!should_auto_compact_at(None, Some(u64::MAX), 1));
}

#[test]
fn a_compacted_history_keeps_its_live_tail() {
    let history = vec![
        system("system"),
        user("old"),
        assistant("answer"),
        user("latest"),
    ];
    let plan = legacy_compaction_plan(&history, "the summary".to_string());
    let compacted = apply_compaction_plan(&history, "/archive/0001.json", &plan);
    assert_eq!(text_of(&compacted[0]), "system");
    assert_eq!(text_of(compacted.last().unwrap()), "latest");
    assert!(compacted.iter().any(|m| matches!(
        &m.content,
        MessageContent::Text(text) if text.contains("the summary") && text.contains("/archive/0001.json")
    )));
}

#[test]
fn a_snapshot_is_used_only_where_it_fits_the_history() {
    let history = vec![
        system("system"),
        user("old"),
        assistant("answer"),
        user("latest"),
    ];
    let snapshot = |index: usize| CompactionSnapshot {
        summary_markdown: "  # Summary  ".to_string(),
        last_summarized_message_index: index,
    };
    let plan = compaction_plan_from_snapshot(Some(2), &history, &snapshot(2)).unwrap();
    assert_eq!(plan.summary, "# Summary");
    assert_eq!(plan.tail_start, 3);
    // Another message was summarized than the session knows of.
    assert!(compaction_plan_from_snapshot(Some(1), &history, &snapshot(2)).is_none());
    // The summary goes beyond the history.
    assert!(compaction_plan_from_snapshot(Some(9), &history, &snapshot(9)).is_none());
}

#[test]
fn the_summarizer_is_shown_the_transcript() {
    let history = vec![user("fix the bug"), assistant("done")];
    let messages = summarizer_messages("/archive/0001.json", CompactionTrigger::Manual, &history);
    assert_eq!(messages.len(), 2);
    assert_eq!(messages[0].role, Role::System);
    let request = text_of(&messages[1]);
    assert!(request.contains("/archive/0001.json"));
    assert!(request.contains("fix the bug"));
    assert!(request.contains("manual"));
}

#[test]
fn sanitize_restored_history_removes_zombie_tool_calls_and_orphan_results() {
    let history = vec![
        system("system"),
        user("before"),
        Message::assistant_tool_use(
            Some("trying tool".to_string()),
            vec![request("call_zombie", "read_file", "path", "Cargo.toml")],
        ),
        tool_result("call_orphan", "never requested"),
    ];
    let sanitized = sanitize_restored_history(&history);

    assert_eq!(sanitized.len(), 3);
    match &sanitized[2].content {
        MessageContent::Text(text) => assert_eq!(text, "trying tool"),
        other => panic!("expected assistant text after zombie tool cleanup, got {other:?}"),
    }
    // Once more changes nothing.
    assert_eq!(sanitize_restored_history(&sanitized).len(), 3);
}

#[test]
fn only_calls_with_a_later_result_are_restored() {
    let history = vec![
        tool_result("early", "orphan"),
        user("look"),
        tool_use(request("early", "bash", "cmd", "pwd")),
        tool_use(request("id-1", "bash", "cmd", "pwd")),
        assistant("wait"),
        tool_result("id-1", "/tmp"),
        tool_use(request("late", "bash", "cmd", "ls")),
    ];
    let restored = sanitize_restored_history(&history);
    assert_eq!(restored.len(), 4);
    assert_eq!(text_of(&restored[0]), "look");
    assert!(matches!(
        &restored[1].content,
        MessageContent::ToolUse { tool_calls, .. } if tool_calls[0].tool_use_id == "id-1"
    ));
    assert_eq!(text_of(&restored[2]), "wait");
    assert_eq!(output_of(&restored[3]), "/tmp");
}

#[test]
fn a_complete_history_is_restored_as_it_was() {
    let history = vec![
        user("look"),
        tool_use(request("id-1", "bash", "cmd", "pwd")),
        tool_result("id-1", "/tmp"),
    ];
    let restored = sanitize_restored_history(&history);
    assert_eq!(restored.len(), 3);
    assert_eq!(output_of(&restored[2]), "/tmp");
}

#[test]
fn estimate_prompt_cache_usage_uses_shared_prefix() {
    let previous: Vec<String> = vec![
        "system".into(),
        "alpha".into(),
        "beta".into(),
        "gamma".into(),
    ];
    let current: Vec<String> = vec![
        "system".into(),
        "alpha".into(),
        "beta".into(),
        "delta".into(),
        "epsilon".into(),
    ];

    let usage = estimate_prompt_cache_usage(&Some(previous), &current);
    assert_eq!(usage.estimated_hit_tokens, 3);
    assert_eq!(usage.estimated_miss_tokens, 2);

    let first = estimate_prompt_cache_usage(&None, &current);
    assert_eq!(first.estimated_hit_tokens, 0);
    assert_eq!(first.estimated_miss_tokens, 5);
}

fn tool(name: &str) -> ToolDefinition {
    ToolDefinition {
        name: name.to_string(),
        description: format!("does {name}"),
        parameters: "{}".to_string(),
        read_only: true,
        idempotent: true,
    }
}

#[test]
fn cache_tokens_do_not_depend_on_the_order_of_the_tools() {
    let messages = vec![user("Hello  World")];
    let ab = canonicalize_prompt_cache_tokens(&messages, &vec![tool("a"), tool("b")]);
    let ba = canonicalize_prompt_cache_tokens(&messages, &vec![tool("b"), tool("a")]);
    assert_eq!(ab, ba);
    let none = Vec::new();
    let first = canonicalize_prompt_cache_tokens(&messages, &none);
    assert_eq!(first, vec!["role:user", "hello", "world"]);
    let second = canonicalize_prompt_cache_tokens(&vec![assistant("Bye")], &none);
    let both =
        canonicalize_prompt_cache_tokens(&vec![user("Hello  World"), assistant("Bye")], &none);
    assert_eq!(both, [first, second].concat());
    let sorted = sort_tools(&vec![tool("b"), tool("a"), tool("ab")]);
    let names: Vec<&str> = sorted.iter().map(|t| t.name.as_str()).collect();
    assert_eq!(names, vec!["a", "ab", "b"]);
}

#[test]
fn system_prompt_includes_tools_and_project_instructions() {
    let prompt = build_combined_system_prompt(
        false,
        &vec![tool("read_file")],
        &Some(ProjectInstructions {
            file_name: "AGENTS.md".to_string(),
            content: "Use cargo test before merging.".to_string(),
        }),
        &Some("base prompt".to_string()),
        &vec![SkillPrompt {
            name: "review".to_string(),
            system_prompt: Some("Review with care.".to_string()),
        }],
        &None,
    );
    assert!(prompt.contains("`read_file` (read-only, idempotent)"));
    assert!(prompt.contains("# Project Instructions (from AGENTS.md)"));
    assert!(prompt.contains("Use cargo test before merging."));
    assert!(prompt.contains("base prompt"));
    assert!(prompt.contains("Review with care."));
    assert!(!prompt.contains("planning-only mode"));
    let planning =
        build_combined_system_prompt(true, &Vec::new(), &None, &None, &Vec::new(), &None);
    assert!(planning.contains("planning-only mode"));
}

#[test]
fn listing_summaries_are_one_line() {
    assert_eq!(
        normalize_listing_summary("  \"Fixing\n the   parser\"  "),
        Some("Fixing the parser".to_string())
    );
    assert_eq!(normalize_listing_summary(" \n "), None);
}

#[test]
fn memory_modes_have_several_names() {
    let mode = |value: &str| prompt_memory_mode(&Some(value.to_string()));
    assert_eq!(mode("INDEX"), PromptMemoryMode::IndexOnly);
    assert_eq!(mode("index_only"), PromptMemoryMode::IndexOnly);
    assert_eq!(mode("recall"), PromptMemoryMode::TargetedRecall);
    assert_eq!(mode("targeted"), PromptMemoryMode::TargetedRecall);
    assert_eq!(mode("off"), PromptMemoryMode::Disabled);
    assert_eq!(prompt_memory_mode(&None), PromptMemoryMode::Disabled);
}

#[test]
fn a_selection_is_kept_until_the_user_writes_again() {
    let mut history = vec![system("system"), user("one"), assistant("two")];
    let selected = vec!["entry-1".to_string()];
    assert_eq!(latest_user_message_index(&history), Some(1));
    assert_eq!(previous_selection(&history, Some(1), &selected), selected);
    assert!(previous_selection(&history, None, &selected).is_empty());
    history.push(user("three"));
    assert!(previous_selection(&history, Some(1), &selected).is_empty());
}

#[test]
fn extract_plan_id_from_tool_output_supports_both_formats() {
    assert_eq!(
        extract_plan_id_from_tool_output(
            "Plan created (ID: 11111111-1111-1111-1111-111111111111)\n\nPlan: Demo"
        ),
        Some("11111111-1111-1111-1111-111111111111".into())
    );
    assert_eq!(
        extract_plan_id_from_tool_output(
            "Plan created (ID: 22222222-2222-2222-2222-222222222222)\nplan_id: 22222222-2222-2222-2222-222222222222\n\nPlan: Demo"
        ),
        Some("22222222-2222-2222-2222-222222222222".into())
    );
}

#[test]
fn normalize_plan_tool_arguments_recovers_plan_id_from_prior_tool_result() {
    let history = vec![tool_result(
        "call_create_plan",
        "Plan created (ID: 33333333-3333-3333-3333-333333333333)\nplan_id: 33333333-3333-3333-3333-333333333333\n\nPlan: Demo",
    )];

    let normalized = normalize_plan_tool_arguments(
        &history,
        &PendingToolCall {
            tool_use_id: "call_update_plan".into(),
            tool_name: "plan".into(),
            arguments: Arguments::Object(vec![
                member("operation", "update_plan"),
                member("plan_id", "call_create_plan"),
                member("action_id", "a1"),
                member("status", "completed"),
            ]),
        },
    );

    assert_eq!(
        normalized.arguments.text("plan_id").as_deref(),
        Some("33333333-3333-3333-3333-333333333333")
    );
    assert_eq!(
        plan_update(&normalized.tool_name, &normalized.arguments),
        Some((
            "33333333-3333-3333-3333-333333333333".to_string(),
            "a1".to_string()
        ))
    );
}

fn action(id: &str, status: &str) -> PlanAction {
    PlanAction {
        action_id: id.to_string(),
        title: format!("title of {id}"),
        description: format!("do {id}"),
        status: status.to_string(),
    }
}

#[test]
fn handle_plan_progress_prompt_includes_exact_plan_id() {
    let plan_id = "44444444-4444-4444-4444-444444444444";
    let plan = PlanState {
        actions: vec![action("a1", "completed"), action("a2", "pending")],
        ready: vec![action("a2", "pending")],
        remaining: 1,
        complete: false,
        summary: String::new(),
    };
    let (output, message) = plan_progress_with_prompt(SessionId(1), &plan, plan_id, "a1");
    let message = message.expect("ready-action prompt should be appended");
    let prompt = text_of(&message);
    assert!(prompt.contains("update_plan"));
    assert!(prompt.contains(&format!("Reuse this exact plan_id: {plan_id}")));
    match output {
        CoreOutput::PlanProgress {
            status,
            remaining,
            total,
            ..
        } => {
            assert_eq!(status, "completed");
            assert_eq!(remaining, 1);
            assert_eq!(total, 2);
        }
        other => panic!("expected PlanProgress, got {other:?}"),
    }
    assert!(plan_progress(SessionId(1), &plan, plan_id, "unknown").is_none());
}

#[test]
fn a_finished_plan_is_summed_up() {
    let plan = PlanState {
        actions: vec![action("a1", "completed")],
        ready: Vec::new(),
        remaining: 0,
        complete: true,
        summary: "all green".to_string(),
    };
    let (_, message) = plan_progress_with_prompt(SessionId(1), &plan, "p", "a1");
    assert_eq!(
        text_of(&message.unwrap()),
        "All actions in the plan are complete. Here is the final summary:\n\nall green"
    );
}
