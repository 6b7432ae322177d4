//! Files, shared values, memory, reports and the batches of tools.

use quine_core::arguments::{ArgumentValue, Arguments, Member};
use quine_core::channel::ToolOutcome;
use quine_core::commands::{print_turn_usage, SessionUsage};
use quine_core::config::Config;
use quine_core::filesystem::{
    candidates_upwards, join_path, sort_entries, DirEntry, FsError, IoErrorKind, NullFilesystem,
    OverlayFilesystem, SessionFilesystem,
};
use quine_core::ipc::SharedMemory;
use quine_core::log::ConversationLog;
use quine_core::memory::{render_memory_section, MemoryDocument, MemoryRecord, MemoryScope};
use quine_core::message::{Message, PendingToolCall};
use quine_core::permissions::{
    build_permission_request, PermissionDecision, PermissionResource, PermissionScope,
};
use quine_core::status_report::{
    finish_status_report, should_emit_completed_status_report,
    should_emit_periodic_status_report, status_report_messages, status_report_payload_texts,
    status_report_progress, tool_call_count_label, truncate_status_report_text,
    ModelStatusReportPayload, StatusReportStage,
};
use quine_core::tools::{
    partition_tool_calls_by_concurrency, tool_batch_is_concurrency_eligible, tool_outcome,
    CompletedToolCall, ToolBatch, ToolInfo, ToolReturn,
};

#[test]
fn fs_error_display() {
    let err = FsError::NotFound {
        path: "/foo".into(),
    };
    assert!(err.text().contains("/foo"));
}

#[test]
fn every_fs_error_has_a_text() {
    let path = || "/foo".to_string();
    assert_eq!(
        FsError::NotFound { path: path() }.text(),
        "not found: /foo"
    );
    assert_eq!(
        FsError::PermissionDenied { path: path() }.text(),
        "permission denied: /foo"
    );
    assert_eq!(
        FsError::PathTraversal { path: path() }.text(),
        "path traversal denied: /foo"
    );
    assert_eq!(
        FsError::Io {
            message: "broken".to_string()
        }
        .text(),
        "I/O error: broken"
    );
    assert_eq!(
        FsError::WrongEntryType {
            path: path(),
            message: "a directory".to_string()
        }
        .text(),
        "wrong entry type at /foo: a directory"
    );
}

#[test]
fn fs_error_from_io() {
    let io_err = std::io::Error::new(std::io::ErrorKind::NotFound, "gone");
    let kind = match io_err.kind() {
        std::io::ErrorKind::NotFound => IoErrorKind::NotFound,
        std::io::ErrorKind::PermissionDenied => IoErrorKind::PermissionDenied,
        _ => IoErrorKind::Other,
    };
    let fs_err: FsError = FsError::from_io(kind, io_err.to_string());
    assert!(matches!(fs_err, FsError::NotFound { .. }));
}

#[test]
fn failed_operations_name_their_path() {
    let read = FsError::from_read("a.txt", IoErrorKind::PermissionDenied, "no".to_string());
    assert!(matches!(read, FsError::PermissionDenied { path } if path == "a.txt"));
    let removed = FsError::from_remove("a.txt", IoErrorKind::PermissionDenied, "no".to_string());
    assert!(matches!(removed, FsError::Io { message } if message == "no"));
}

#[test]
fn path_traversal_denied() {
    let fs = OverlayFilesystem::new("/work/project".to_string(), "/");
    let result = fs.resolve_path("../../etc/passwd");
    assert!(matches!(result, Err(FsError::PathTraversal { .. })));
    assert!(fs.resolve_path("/etc/passwd").is_err());
    assert!(fs.resolve_path("a/../../b").is_err());
    assert_eq!(
        fs.resolve_path("src/./a/../lib.rs").unwrap(),
        "/work/project/src/lib.rs"
    );
    assert_eq!(
        fs.resolve_path("/work/project/src//lib.rs").unwrap(),
        "/work/project/src/lib.rs"
    );
    assert_eq!(fs.root(), "/work/project");
}

#[test]
fn resolved_paths_are_absolute() {
    let fs = OverlayFilesystem::new("work".to_string(), "/home/me");
    assert_eq!(fs.root(), "/home/me/work");
    let resolved = fs.resolve_path("a.txt").unwrap();
    assert_eq!(resolved, "/home/me/work/a.txt");
    assert_eq!(fs.resolve_path(&resolved).unwrap(), resolved);
    let fs = OverlayFilesystem::new("work".to_string(), "s");
    assert_eq!(fs.resolve_path("a.txt").unwrap(), "/s/work/a.txt");
    let fs = OverlayFilesystem::new("/work".to_string(), "/home/me");
    assert_eq!(fs.resolve_path("b/../a.txt").unwrap(), "/work/a.txt");
}

#[test]
fn all_operations_of_the_null_filesystem_return_errors() {
    let fs = NullFilesystem;
    assert!(fs.read_file("a").is_err());
    assert!(fs.write_file("a", "b").is_err());
    assert!(matches!(
        fs.path_exists("a"),
        Err(FsError::NotFound { path }) if path == "a"
    ));
    assert!(fs.list_dir("a").is_err());
    assert!(matches!(
        fs.create_dir_all("a"),
        Err(FsError::NotFound { path }) if path == "a"
    ));
    assert!(fs.remove_file("a").is_err());
    assert!(fs.remove_dir_all("a").is_err());
    assert!(fs.resolve_path("a").is_err());
    assert_eq!(fs.root(), "/");
}

#[test]
fn listings_are_sorted_by_name() {
    let entry = |name: &str| DirEntry {
        name: name.to_string(),
        is_dir: false,
    };
    let sorted = sort_entries(&vec![entry("b"), entry("B"), entry("a"), entry("ab")]);
    let names: Vec<&str> = sorted.iter().map(|e| e.name.as_str()).collect();
    assert_eq!(names, vec!["B", "a", "ab", "b"]);
}

#[test]
fn files_are_looked_for_upwards() {
    assert_eq!(
        candidates_upwards("/a/b", "NOTES"),
        vec!["/a/b/NOTES", "/a/NOTES", "/NOTES"]
    );
    assert_eq!(candidates_upwards("a", "NOTES"), vec!["a/NOTES", "NOTES"]);
    assert_eq!(
        candidates_upwards("./a", "NOTES"),
        vec!["./a/NOTES", "./NOTES", "NOTES"]
    );
    assert_eq!(candidates_upwards(".a", "NOTES"), vec![".a/NOTES", "NOTES"]);
    assert_eq!(join_path("/a/", "b"), "/a/b");
    assert_eq!(join_path("/a", "/b"), "/b");
}

#[test]
fn logs_are_kept_below_the_working_directory() {
    let config = Config::new("anthropic", "model-1", Some("/home/me".to_string()));
    assert_eq!(config.provider, "anthropic");
    assert_eq!(config.model, "model-1");
    assert!(config.api_key.is_none());
    assert_eq!(config.log_dir, "/home/me/.quine/logs");
    let nowhere = Config::new("anthropic", "model-1", None);
    assert_eq!(nowhere.working_dir, ".");
    assert_eq!(nowhere.log_dir, "./.quine/logs");
}

#[test]
fn a_new_log_is_stamped_with_the_time() {
    let log = ConversationLog::new("m".to_string(), "p".to_string(), "s".to_string());
    assert_eq!(log.version, 1);
    assert!(log.entries.is_empty());
    assert!(chrono::DateTime::parse_from_rfc3339(&log.created_at).is_ok());
}

#[test]
fn shared_memory_get_set() {
    let mut mem = SharedMemory::new();
    assert!(mem.get("key").is_none());

    mem.set("key".into(), "value".into());
    assert_eq!(mem.get("key").unwrap(), "value");
}

#[test]
fn shared_memory_overwrite() {
    let mut mem = SharedMemory::new();
    mem.set("k".into(), "v1".into());
    let old = mem.set("k".into(), "v2".into());
    assert_eq!(old, Some("v1".into()));
    assert_eq!(mem.get("k").unwrap(), "v2");
}

#[test]
fn shared_memory_remove() {
    let mut mem = SharedMemory::new();
    mem.set("k".into(), "v".into());
    mem.set("other".into(), "w".into());
    let removed = mem.remove("k");
    assert_eq!(removed, Some("v".into()));
    assert!(mem.get("k").is_none());
    assert_eq!(mem.get("other").unwrap(), "w");
    assert!(mem.remove("k").is_none());
}

#[test]
fn shared_memory_default() {
    let mem = SharedMemory::default();
    assert!(mem.get("anything").is_none());
}

fn sample_record() -> MemoryRecord {
    MemoryRecord {
        id: "rust-style".into(),
        scope: MemoryScope::User,
        title: "Rust style".into(),
        body: "Use anyhow for app-level errors.".into(),
        tags: vec!["rust".into(), "style".into()],
        updated_at: "2026-01-02T03:04:05Z".into(),
    }
}

#[test]
fn render_memory_section_returns_none_when_empty() {
    assert_eq!(render_memory_section(&[]), None);
}

#[test]
fn render_memory_section_is_deterministic() {
    let rendered = render_memory_section(&[sample_record()]).unwrap();
    assert_eq!(
        rendered,
        "## Memory\n- Rust style: Use anyhow for app-level errors. [tags: rust, style]"
    );
}

#[test]
fn records_without_tags_are_rendered_without_brackets() {
    let mut plain = sample_record();
    plain.tags = Vec::new();
    plain.body = "  trimmed \n".to_string();
    let rendered = render_memory_section(&[sample_record(), plain]).unwrap();
    assert!(rendered.ends_with("\n- Rust style: trimmed"));
    assert!(MemoryDocument::default().records.is_empty());
}

fn info(name: &str, safe: bool) -> ToolInfo {
    ToolInfo {
        name: name.to_string(),
        interactive: false,
        read_only: safe,
        idempotent: safe,
    }
}

fn call(id: &str, name: &str) -> PendingToolCall {
    PendingToolCall {
        tool_use_id: id.to_string(),
        tool_name: name.to_string(),
        arguments: Arguments::Object(Vec::new()),
    }
}

#[test]
fn concurrent_tool_batch_requires_explicit_safe_metadata_and_allowlist() {
    let registry = vec![
        info("read_file", true),
        info("find", true),
        info("wait_child", true),
    ];
    let safe_calls = vec![call("toolu_1", "read_file"), call("toolu_2", "find")];
    assert!(tool_batch_is_concurrency_eligible(&registry, &safe_calls));

    let unknown_calls = vec![call("toolu_1", "read_file"), call("toolu_2", "unknown")];
    assert!(!tool_batch_is_concurrency_eligible(
        &registry,
        &unknown_calls
    ));

    let special_tool_calls = vec![call("toolu_1", "read_file"), call("toolu_2", "wait_child")];
    assert!(!tool_batch_is_concurrency_eligible(
        &registry,
        &special_tool_calls
    ));
}

#[test]
fn partition_tool_calls_by_concurrency_preserves_order_and_batches() {
    let registry = vec![
        info("read_file", true),
        info("find", true),
        info("bash", false),
    ];
    let calls = vec![
        call("toolu_1", "read_file"),
        call("toolu_2", "find"),
        call("toolu_3", "bash"),
        call("toolu_4", "read_file"),
        call("toolu_5", "find"),
    ];

    let partitions = partition_tool_calls_by_concurrency(&registry, &calls);
    assert_eq!(partitions.len(), 3);
    assert!(partitions[0].0);
    assert_eq!(partitions[0].1.len(), 2);
    assert!(!partitions[1].0);
    assert_eq!(partitions[1].1.len(), 1);
    assert!(partitions[2].0);
    assert_eq!(partitions[2].1.len(), 2);
    assert_eq!(partitions[0].1[0].tool_use_id, "toolu_1");
    assert_eq!(partitions[0].1[1].tool_use_id, "toolu_2");
    assert_eq!(partitions[1].1[0].tool_use_id, "toolu_3");
    assert_eq!(partitions[2].1[0].tool_use_id, "toolu_4");
    assert_eq!(partitions[2].1[1].tool_use_id, "toolu_5");
}

#[test]
fn a_batch_gives_its_results_in_the_order_of_the_calls() {
    let completed = |index: usize| CompletedToolCall {
        index,
        tool_use_id: format!("toolu_{index}"),
        tool_name: "find".to_string(),
        arguments: Arguments::Object(Vec::new()),
        result: ToolOutcome::Cancelled,
        duration_us: 1,
    };
    let mut batch = ToolBatch::start(3);
    batch.record(completed(2));
    batch.record_panic();
    batch.record(completed(0));
    assert_eq!(batch.remaining, 0);
    let indices: Vec<usize> = batch.finish().iter().map(|c| c.index).collect();
    assert_eq!(indices, vec![0, 2]);
}

#[test]
fn tool_returns_become_outcomes() {
    assert!(matches!(
        tool_outcome(ToolReturn::Output { content: "x".to_string(), is_error: true }),
        ToolOutcome::Error { message } if message == "x"
    ));
    assert!(matches!(
        tool_outcome(ToolReturn::Panicked { error: "boom".to_string() }),
        ToolOutcome::Error { message } if message == "tool task panicked: boom"
    ));
    assert!(matches!(
        tool_outcome(ToolReturn::Failed { error: "bad".to_string() }),
        ToolOutcome::Error { message } if message == "bad"
    ));
    assert!(matches!(
        tool_outcome(ToolReturn::Cancelled),
        ToolOutcome::Cancelled
    ));
}

fn arguments(members: Vec<(&str, ArgumentValue)>) -> Arguments {
    Arguments::Object(
        members
            .into_iter()
            .map(|(key, value)| Member {
                key: key.to_string(),
                value,
            })
            .collect(),
    )
}

fn text(value: &str) -> ArgumentValue {
    ArgumentValue::Text(value.to_string())
}

#[test]
fn build_permission_request_uses_apply_patch_path_resource() {
    let fs = OverlayFilesystem::new("/work".to_string(), "/");
    let patch = PendingToolCall {
        tool_use_id: "toolu_apply_patch".into(),
        tool_name: "apply_patch".into(),
        arguments: arguments(vec![
            ("file_path", text("src/lib.rs")),
            ("edits", ArgumentValue::Other("[]".to_string())),
        ]),
    };

    let (request, local) = build_permission_request(&fs, "/work", &patch, false);

    assert_eq!(request.tool_name, "apply_patch");
    assert_eq!(request.scope, PermissionScope::Write);
    assert!(matches!(
        request.resource,
        PermissionResource::Path { ref path } if path.ends_with("src/lib.rs")
    ));
    assert_eq!(
        local.expect("tool-local decision should exist").decision,
        PermissionDecision::Defer
    );
}

#[test]
fn build_permission_request_names_the_command_of_the_shell() {
    let fs = OverlayFilesystem::new("/work".to_string(), "/");
    let shell = |command: &str| PendingToolCall {
        tool_use_id: "toolu_bash".into(),
        tool_name: "bash".into(),
        arguments: arguments(vec![("command", text(command))]),
    };
    let (request, local) = build_permission_request(&fs, "/work", &shell("pwd"), false);
    assert_eq!(request.tool_name, "bash");
    assert_eq!(request.scope, PermissionScope::Execute);
    assert!(matches!(
        request.resource,
        PermissionResource::Command { ref command } if command == "pwd"
    ));
    assert_eq!(
        local.expect("tool-local decision should exist").decision,
        PermissionDecision::Defer
    );
    let (_, local) = build_permission_request(&fs, "/work", &shell("  rm -rf / "), false);
    assert_eq!(local.unwrap().decision, PermissionDecision::Deny);
}

#[test]
fn build_permission_request_treats_ask_user_as_internal_interaction() {
    let fs = OverlayFilesystem::new("/work".to_string(), "/");
    let ask = PendingToolCall {
        tool_use_id: "toolu_ask".into(),
        tool_name: "ask_user".into(),
        arguments: arguments(vec![("question", text("Proceed?"))]),
    };

    let (request, _) = build_permission_request(&fs, "/work", &ask, false);

    assert_eq!(request.tool_name, "ask_user");
    assert_eq!(request.scope, PermissionScope::Read);
    assert!(matches!(request.resource, PermissionResource::Nothing));
}

#[test]
fn arguments_are_written_as_json() {
    let all = arguments(vec![
        ("path", text("a \"b\"\n")),
        ("deep", ArgumentValue::Flag(true)),
        ("limit", ArgumentValue::Count(3)),
        ("more", ArgumentValue::Other("[1,2]".to_string())),
    ]);
    assert_eq!(
        all.json(),
        "{\"path\":\"a \\\"b\\\"\\n\",\"deep\":true,\"limit\":3,\"more\":[1,2]}"
    );
    let control = arguments(vec![("k", text("\u{1}\u{8}\t\u{c}\r\u{1f}\\/\u{7f}\u{e9}"))]);
    assert_eq!(
        control.json(),
        "{\"k\":\"\\u0001\\b\\t\\f\\r\\u001f\\\\/\u{7f}\u{e9}\"}"
    );
    assert_eq!(all.text("path").as_deref(), Some("a \"b\"\n"));
    assert_eq!(all.flag("deep"), Some(true));
    assert_eq!(all.count("limit"), Some(3));
    assert_eq!(all.text("deep"), None);
    let changed = all.with_text("path", "c".to_string());
    assert_eq!(changed.text("path").as_deref(), Some("c"));
    assert_eq!(changed.count("limit"), Some(3));
}

#[test]
fn status_reports_are_due_at_the_threshold() {
    assert!(!should_emit_periodic_status_report(0, 3));
    assert!(should_emit_periodic_status_report(3, 3));
    assert!(should_emit_completed_status_report(0, 3, true));
    assert!(!should_emit_completed_status_report(0, 3, false));
    assert_eq!(
        status_report_progress(1, 3, StatusReportStage::Completed),
        100
    );
    let progress = status_report_progress(1000, 3, StatusReportStage::ReviewingResults);
    assert!((10..=95).contains(&progress));
    assert_eq!(tool_call_count_label(1), "1 tool call");
    assert_eq!(tool_call_count_label(2), "2 tool calls");
}

#[test]
fn a_status_report_is_taken_from_the_model_if_it_gave_one() {
    let report = finish_status_report(
        Some(ModelStatusReportPayload {
            progress_percent: 99,
            confidence_percent: 0,
            completed_summary: " did  this ".to_string(),
            remaining_summary: "that".to_string(),
        }),
        4,
        3,
        1,
        StatusReportStage::ReviewingResults,
        None,
    );
    assert!(report.active);
    assert_eq!(report.progress_percent, 95);
    assert_eq!(report.confidence_percent, 1);
    assert_eq!(report.completed_summary, "did this");
    assert_eq!(report.tool_rounds_observed, 4);
    let plain = finish_status_report(None, 4, 3, 1, StatusReportStage::Completed, Some(70));
    assert!(!plain.active);
    assert_eq!(plain.progress_percent, 100);
    assert!(plain.completed_summary.contains('4'));
}

#[test]
fn the_payload_of_a_report_is_looked_for_in_the_answer() {
    assert_eq!(
        status_report_payload_texts(" Sure: {\"a\":1} ok "),
        vec!["Sure: {\"a\":1} ok", "{\"a\":1}"]
    );
    assert!(status_report_payload_texts("  ").is_empty());
    assert_eq!(status_report_payload_texts("} {"), vec!["} {"]);
}

#[test]
fn the_model_is_asked_for_a_report_with_the_transcript() {
    let history = vec![
        Message::user("fix it".to_string()),
        Message::assistant("working".to_string()),
    ];
    let messages =
        status_report_messages(&history, 3, 3, 2, StatusReportStage::ReviewingResults);
    assert_eq!(messages.len(), 2);
    assert_eq!(truncate_status_report_text("short", 10), "short");
    assert!(truncate_status_report_text("a long text", 6).chars().count() <= 7);
}

#[test]
fn usage_is_printed_in_thousands() {
    let line = print_turn_usage(
        1_500,
        20,
        &SessionUsage {
            total_input: 3_000_000,
            total_output: 40,
            total_cache_creation: 0,
            total_cache_read: 0,
        },
    );
    assert!(line.contains("1.5K"));
    assert!(line.contains("20"));
}
