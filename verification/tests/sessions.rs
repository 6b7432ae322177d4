//! Sessions that wait for each other, are stopped, saved and brought back.

use std::collections::VecDeque;

use quine_core::actor::PendingResult;
use quine_core::arguments::{ArgumentValue, Arguments, Member};
use quine_core::channel::{
    CoreOutput, InteractionResponse, MailboxMessage, MessageSource, ReplyId, ToolOutcome,
};
use quine_core::context::{
    PermissionPromptBehavior, Session, SessionInit, SessionMemory, Skill, ToolBelt, ToolSpec,
};
use quine_core::core_loop::{ChildDefaults, CoreInput};
use quine_core::core_sessions::{
    classify_tool_input, clear_suspended_wait, expired_waits, finalize_child_session,
    handle_send_message_input, handle_session_control_input, interrupt_session,
    next_wait_deadline, result_for_wait, resume_session_from_wait, start_child_session,
    wait_edges, waiting_would_cycle, waiting_would_cycle_including_session_tree, ToolInput,
};
use quine_core::effect::{Effect, Reply};
use quine_core::message::{
    Message, MessageContent, PendingToolCall, Role, ToolDefinition, ToolUseRequest,
};
use quine_core::permissions::{PermissionOutcome, PermissionVerdict};
use quine_core::prompt::{PromptMemoryMode, SkillPrompt};
use quine_core::session::{parse_session_id, ExitStatus, SessionId, SessionSignal, SessionState};
use quine_core::session_tree::SessionTree;
use quine_core::turn::TurnOutcome;
use quine_core::wait::{pop_mailbox_message, render_message, SuspendedWait};

fn tool(name: &str, read_only: bool) -> ToolSpec {
    ToolSpec {
        definition: ToolDefinition {
            name: name.to_string(),
            description: String::new(),
            parameters: "{}".to_string(),
            read_only,
            idempotent: read_only,
        },
        interactive: false,
    }
}

fn belt() -> ToolBelt {
    ToolBelt {
        observing: vec![
            tool("read_file", true),
            tool("find", true),
            tool("web_search", true),
            tool("web_open", true),
        ],
        acting: vec![tool("bash", false)],
        web_configured: false,
    }
}

fn init() -> SessionInit {
    SessionInit {
        system_prompt: None,
        skills: Vec::new(),
        working_directory: "/work".to_string(),
        plan_mode: false,
        prompt_behavior: PermissionPromptBehavior::Interactive,
        initial_messages: Vec::new(),
        max_context_window: None,
        prompt_memory_mode: PromptMemoryMode::Disabled,
        agent_key: None,
        team_key: None,
        model_profile: None,
        session_group: None,
        auto_compact_threshold_percent: 60,
        status_report_min_tool_rounds: 3,
    }
}

fn memory() -> SessionMemory {
    SessionMemory {
        enabled: true,
        refresh_in_flight: false,
        last_summarized_message_index: None,
        last_refresh_at: None,
        listing_summary: None,
    }
}

fn session(id: SessionId) -> Session {
    Session::new(id, init(), &belt(), &None, memory())
}

fn waits_for(id: SessionId, tool_use_id: &str, source: MessageSource) -> Session {
    let mut waiting = session(id);
    waiting.state = SessionState::Waiting;
    waiting.suspended_wait = Some(SuspendedWait::Mailbox {
        tool_use_id: tool_use_id.to_string(),
        source,
        timeout_at: None,
    });
    waiting
}

fn defaults() -> ChildDefaults {
    ChildDefaults {
        working_directory: "/work".to_string(),
        max_context_window: Some(1000),
        auto_compact_threshold_percent: 60,
        status_report_min_tool_rounds: 3,
    }
}

#[test]
fn wait_graph_cycle_detection_catches_indirect_cycles() {
    let id_a = SessionId::new();
    let id_b = SessionId::new();
    let id_c = SessionId::new();
    let sessions = vec![
        (id_a, waits_for(id_a, "toolu_a", MessageSource::Session(id_b))),
        (id_b, waits_for(id_b, "toolu_b", MessageSource::Session(id_c))),
        (id_c, session(id_c)),
    ];

    assert!(waiting_would_cycle(&sessions, id_c, id_a));
    assert!(waiting_would_cycle(&sessions, id_b, id_b));
    assert!(!waiting_would_cycle(&sessions, id_c, SessionId::new()));
    assert_eq!(wait_edges(&sessions), vec![(id_a, id_b), (id_b, id_c)]);
}

#[test]
fn waiting_would_cycle_including_session_tree_detects_mixed_wait_cycles() {
    let mut session_tree = SessionTree::new();
    let waiter_id = SessionId::new();
    let dependency_id = SessionId::new();
    let transitive_id = SessionId::new();
    let sessions = vec![
        (
            waiter_id,
            waits_for(
                waiter_id,
                "toolu_waiter",
                MessageSource::Session(dependency_id),
            ),
        ),
        (dependency_id, session(dependency_id)),
    ];
    session_tree
        .register_active_wait(dependency_id, transitive_id)
        .unwrap();
    session_tree
        .register_active_wait(transitive_id, waiter_id)
        .unwrap();

    assert!(waiting_would_cycle_including_session_tree(
        &sessions,
        &session_tree,
        waiter_id,
        dependency_id,
    ));
}

#[test]
fn the_tree_refuses_a_wait_that_closes_a_cycle() {
    let a = SessionId(1);
    let b = SessionId(2);
    let mut tree = SessionTree::new();
    tree.register_active_wait(a, b).unwrap();
    let error = tree.register_active_wait(b, a).unwrap_err();
    assert!(error.contains("deadlock"));
    tree.clear_active_wait(a);
    assert!(tree.register_active_wait(b, a).is_ok());
}

#[test]
fn next_wait_deadline_picks_earliest_timeout() {
    let id_a = SessionId::new();
    let id_b = SessionId::new();
    let early: u128 = 10;
    let late: u128 = 20;
    let mut session_a = session(id_a);
    session_a.suspended_wait = Some(SuspendedWait::Mailbox {
        tool_use_id: "toolu_a".into(),
        source: MessageSource::Any,
        timeout_at: Some(late),
    });
    let mut session_b = session(id_b);
    session_b.suspended_wait = Some(SuspendedWait::ChildExit {
        tool_use_id: "toolu_b".into(),
        child_id: SessionId::new(),
        timeout_at: Some(early),
    });
    let sessions = vec![(id_a, session_a), (id_b, session_b)];

    assert_eq!(next_wait_deadline(&sessions), Some(early));
    assert_eq!(next_wait_deadline(&Vec::new()), None);
}

#[test]
fn timeout_expiry_resumes_waiting_session_with_error() {
    let id = SessionId::new();
    let mut waiting = waits_for(id, "toolu_timeout", MessageSource::Any);
    waiting.suspended_wait = Some(SuspendedWait::Mailbox {
        tool_use_id: "toolu_timeout".into(),
        source: MessageSource::Any,
        timeout_at: Some(99),
    });
    let mut sessions = vec![(id, waiting)];
    let mut tree = SessionTree::new();

    assert!(expired_waits(&sessions, 98).is_empty());
    let expired = expired_waits(&sessions, 100);
    assert_eq!(expired.len(), 1);
    assert_eq!(expired[0].0, id);

    let outcome = ToolOutcome::Error {
        message: expired[0].1.clone(),
    };
    let result = result_for_wait(&sessions[0].1, &outcome).unwrap();
    assert!(result.is_error);
    let prepared = result.output.clone();
    let effects = resume_session_from_wait(&mut sessions[0].1, &mut tree, result, prepared);

    let resumed = &sessions[0].1;
    assert!(resumed.suspended_wait.is_none());
    assert_eq!(resumed.state, SessionState::Streaming);
    let tool_entries: Vec<_> = resumed
        .history
        .iter()
        .filter(|message| message.role == Role::Tool)
        .collect();
    assert!(matches!(
        &tool_entries.last().unwrap().content,
        MessageContent::ToolResult { output, .. } if output.contains("recv_message timed out")
    ));
    assert!(matches!(
        &effects[0],
        Effect::Output(CoreOutput::ToolResult { is_error: true, content, .. })
            if content.contains("recv_message timed out")
    ));
    assert!(result_for_wait(resumed, &ToolOutcome::Cancelled).is_none());
}

#[test]
fn send_message_queues_resume_for_waiting_mailbox_session() {
    let waiting_id = SessionId::new();
    let sender_id = SessionId::new();
    let mut sessions = vec![(
        waiting_id,
        waits_for(waiting_id, "toolu_wait", MessageSource::Session(sender_id)),
    )];
    let mut deferred_inputs = VecDeque::new();

    let (outputs, wakes) = handle_send_message_input(
        &mut sessions,
        &mut deferred_inputs,
        sender_id,
        waiting_id,
        "hello".into(),
    );
    assert!(wakes);

    let queued = deferred_inputs.pop_front().expect("expected resume input");
    match queued {
        CoreInput::ToolResult { session_id, .. } => assert_eq!(session_id, waiting_id),
        other => panic!("expected queued ToolResult, got {other:?}"),
    }

    let message = pop_mailbox_message(
        &mut sessions[0].1.mailbox,
        &MessageSource::Session(sender_id),
    )
    .expect("expected queued mailbox message");
    assert_eq!(message.content, "hello");

    match &outputs[0] {
        CoreOutput::MessageReceived {
            session_id,
            from,
            content,
        } => {
            assert_eq!(*session_id, waiting_id);
            assert_eq!(*from, sender_id);
            assert_eq!(content, "hello");
        }
        other => panic!("expected MessageReceived, got {other:?}"),
    }
}

#[test]
fn a_message_that_is_not_awaited_wakes_nobody() {
    let waiting_id = SessionId(1);
    let mut sessions = vec![(
        waiting_id,
        waits_for(waiting_id, "toolu_wait", MessageSource::Session(SessionId(2))),
    )];
    let mut deferred = VecDeque::new();
    let (outputs, wakes) = handle_send_message_input(
        &mut sessions,
        &mut deferred,
        SessionId(3),
        waiting_id,
        "hello".into(),
    );
    assert!(!wakes);
    assert_eq!(outputs.len(), 1);
    assert_eq!(sessions[0].1.mailbox.len(), 1);
    let (outputs, _) = handle_send_message_input(
        &mut sessions,
        &mut deferred,
        SessionId(3),
        SessionId(9),
        "hello".into(),
    );
    assert!(outputs.is_empty());
    assert!(deferred.is_empty());
}

#[test]
fn mailboxes_are_read_in_order() {
    let mut mailbox = VecDeque::new();
    for (from, content) in [(1, "msg-0"), (2, "other"), (1, "msg-1"), (1, "msg-2")] {
        mailbox.push_back(MailboxMessage {
            from: SessionId(from),
            content: content.to_string(),
        });
    }
    let source = MessageSource::Session(SessionId(1));
    for i in 0..3 {
        let message = pop_mailbox_message(&mut mailbox, &source).unwrap();
        assert_eq!(message.content, format!("msg-{i}"));
    }
    assert!(pop_mailbox_message(&mut mailbox, &source).is_none());
    assert_eq!(
        pop_mailbox_message(&mut mailbox, &MessageSource::Any)
            .unwrap()
            .content,
        "other"
    );
}

#[test]
fn a_message_is_rendered_as_json() {
    let text = render_message(&MailboxMessage {
        from: SessionId(0x11111111_1111_4111_8111_111111111111),
        content: "say \"hi\"".to_string(),
    });
    assert!(text.contains("11111111-1111-4111-8111-111111111111"));
    assert!(text.contains("say \\\"hi\\\""));
}

fn response(id: SessionId) -> CoreInput {
    CoreInput::InteractionResponse {
        session_id: id,
        response: InteractionResponse {
            response: "yes".to_string(),
            selected_indices: Vec::new(),
        },
    }
}

#[test]
fn an_interrupt_drops_only_the_inputs_of_its_session() {
    let a = SessionId(1);
    let b = SessionId(2);
    let mut armed = session(a);
    armed.state = SessionState::Streaming;
    armed.cancel_armed = true;
    let mut sessions = vec![(a, armed), (b, session(b))];
    let mut deferred = VecDeque::new();
    deferred.push_back(response(a));
    deferred.push_back(response(b));
    deferred.push_back(CoreInput::Cancel { session_id: a });
    deferred.push_back(CoreInput::UserMessage {
        session_id: a,
        content: "next".to_string(),
        turn_id: "t".to_string(),
    });

    assert!(interrupt_session(&mut sessions, &mut deferred, a));
    assert!(sessions[0].1.interrupted);
    assert_eq!(sessions[0].1.state, SessionState::Idle);
    assert!(!sessions[1].1.interrupted);
    assert_eq!(deferred.len(), 2);
    assert!(matches!(
        deferred[0],
        CoreInput::InteractionResponse { session_id, .. } if session_id == b
    ));
    assert!(matches!(deferred[1], CoreInput::UserMessage { .. }));
    assert!(!interrupt_session(&mut sessions, &mut deferred, SessionId(7)));
}

#[test]
fn a_stop_ends_the_wait_of_a_session() {
    let a = SessionId(1);
    let b = SessionId(2);
    let mut tree = SessionTree::new();
    tree.register_active_wait(a, b).unwrap();
    let mut sessions = vec![(a, waits_for(a, "toolu", MessageSource::Session(b)))];
    let mut deferred = VecDeque::new();

    let (stopped, _) = handle_session_control_input(
        &mut sessions,
        &mut tree,
        &mut deferred,
        a,
        CoreInput::Signal {
            session_id: a,
            signal: SessionSignal::Continue,
        },
    );
    assert!(!stopped);
    assert_eq!(deferred.len(), 1);
    let (stopped, _) = handle_session_control_input(
        &mut sessions,
        &mut tree,
        &mut deferred,
        a,
        CoreInput::Signal {
            session_id: a,
            signal: SessionSignal::Term,
        },
    );
    assert!(stopped);
    assert!(deferred.is_empty());
    assert!(sessions[0].1.suspended_wait.is_none());
    assert!(tree.waits.is_empty());
}

#[test]
fn a_cleared_wait_leaves_the_session_idle() {
    let a = SessionId(1);
    let mut tree = SessionTree::new();
    let mut sessions = vec![(a, waits_for(a, "toolu", MessageSource::Any))];
    clear_suspended_wait(&mut sessions, &mut tree, a);
    assert_eq!(sessions[0].1.state, SessionState::Idle);
    assert!(sessions[0].1.suspended_wait.is_none());
}

#[test]
fn inputs_during_a_tool_are_told_apart() {
    let a = SessionId(1);
    let b = SessionId(2);
    assert!(matches!(
        classify_tool_input(CoreInput::Cancel { session_id: a }, a, false),
        ToolInput::Stop
    ));
    assert!(matches!(
        classify_tool_input(CoreInput::Cancel { session_id: b }, a, false),
        ToolInput::Later(CoreInput::Cancel { .. })
    ));
    assert!(matches!(
        classify_tool_input(response(a), a, false),
        ToolInput::Response(_)
    ));
    let ask = || CoreInput::RequestCheckpoint { reply: ReplyId(4) };
    assert!(matches!(
        classify_tool_input(ask(), a, true),
        ToolInput::Checkpoint { reply: ReplyId(4) }
    ));
    assert!(matches!(
        classify_tool_input(ask(), a, false),
        ToolInput::Later(_)
    ));
}

#[test]
fn execute_tool_call_buffers_unrelated_input_while_waiting_for_cancel() {
    let id = SessionId(1);
    let other = SessionId(2);
    let mut deferred = VecDeque::new();
    let mut stopped = false;
    let inputs = vec![
        CoreInput::UserMessage {
            session_id: other,
            content: "hello".to_string(),
            turn_id: "t".to_string(),
        },
        CoreInput::Cancel { session_id: id },
    ];
    for input in inputs {
        match classify_tool_input(input, id, false) {
            ToolInput::Stop => stopped = true,
            ToolInput::Later(later) => deferred.push_back(later),
            other => panic!("unexpected input: {other:?}"),
        }
    }
    assert!(stopped);
    assert!(matches!(
        deferred.pop_front(),
        Some(CoreInput::UserMessage { session_id, content, .. })
            if session_id == other && content == "hello"
    ));
    assert!(deferred.is_empty());
}

#[test]
fn a_child_lives_until_its_turn_is_over() {
    let parent = SessionId(1);
    let child = SessionId(2);
    let mut parent_session = session(parent);
    parent_session.max_context_window = Some(9000);
    parent_session.config.session_group = Some("group".to_string());
    let mut sessions = vec![(parent, parent_session)];
    let mut tree = SessionTree::new();
    let mut deferred = VecDeque::new();
    let start = |sessions: &mut Vec<(SessionId, Session)>,
                 tree: &mut SessionTree,
                 deferred: &mut VecDeque<CoreInput>| {
        start_child_session(
            sessions,
            tree,
            deferred,
            parent,
            child,
            "the task".to_string(),
            "turn-1".to_string(),
            "2026-01-02T03:04:05Z".to_string(),
            None,
            PermissionPromptBehavior::Headless,
            &defaults(),
            &belt(),
            &None,
            memory(),
        )
    };
    let effects = start(&mut sessions, &mut tree, &mut deferred).unwrap();
    assert!(matches!(
        effects[0],
        Effect::Output(CoreOutput::ChildSpawned { parent_id, child_id })
            if parent_id == parent && child_id == child
    ));
    assert_eq!(tree.parent_of(child), Some(parent));
    assert_eq!(sessions[1].1.max_context_window, Some(9000));
    assert_eq!(sessions[1].1.python_group, "group");
    assert!(matches!(
        &deferred[0],
        CoreInput::UserMessage { content, .. } if content == "the task"
    ));
    assert_eq!(
        start(&mut sessions, &mut tree, &mut deferred).unwrap_err(),
        "session already exists"
    );

    sessions[0].1.suspended_wait = Some(SuspendedWait::ChildExit {
        tool_use_id: "toolu_wait".to_string(),
        child_id: child,
        timeout_at: None,
    });
    assert!(!tree.register_waiter(child, ReplyId(5)));
    let effects = finalize_child_session(
        &mut sessions,
        &mut tree,
        &mut deferred,
        child,
        TurnOutcome::Completed(Some("done".to_string())),
    );
    assert_eq!(sessions.len(), 1);
    assert!(matches!(
        tree.exit_status(child),
        Some(ExitStatus::Success { output }) if output == "done"
    ));
    assert!(matches!(
        &effects[0],
        Effect::Reply { to: ReplyId(5), reply: Reply::Exit(Some(ExitStatus::Success { .. })) }
    ));
    assert!(effects.iter().any(|effect| matches!(
        effect,
        Effect::Output(CoreOutput::ChildExited { parent_id, .. }) if *parent_id == parent
    )));
    assert!(matches!(
        &deferred[1],
        CoreInput::ToolResult { session_id, tool_use_id, .. }
            if *session_id == parent && tool_use_id == "__resume_wait_child__"
    ));
}

#[test]
fn a_suspended_child_stays() {
    let child = SessionId(2);
    let mut sessions = vec![(child, session(child))];
    let mut tree = SessionTree::new();
    let mut deferred = VecDeque::new();
    let effects = finalize_child_session(
        &mut sessions,
        &mut tree,
        &mut deferred,
        child,
        TurnOutcome::Suspended,
    );
    assert!(effects.is_empty());
    assert_eq!(sessions.len(), 1);
    assert!(tree.exit_status(child).is_none());
}

#[test]
fn session_omits_web_tools_when_web_provider_is_disabled() {
    let made = session(SessionId::new());

    assert!(!made.tools.iter().any(|tool| tool.name == "web_search"));
    assert!(!made.tools.iter().any(|tool| tool.name == "web_open"));
    assert!(made.registry.iter().any(|tool| tool.name == "web_search"));
    assert!(made.registry.iter().any(|tool| tool.name == "web_open"));
}

#[test]
fn create_session_seeds_initial_messages_after_system_prompt() {
    let mut seeded = init();
    seeded.initial_messages = vec![
        Message::user("first".to_string()),
        Message::assistant("second".to_string()),
    ];
    let made = Session::new(SessionId::new(), seeded, &belt(), &None, memory());
    assert_eq!(made.history.len(), 3);
    assert_eq!(made.history[0].role, Role::System);
    assert_eq!(made.history[1].role, Role::User);
    assert_eq!(made.history[2].role, Role::Assistant);
}

#[test]
fn leaving_plan_mode_brings_back_the_tools_that_act() {
    let mut planning = init();
    planning.plan_mode = true;
    let mut made = Session::new(SessionId::new(), planning, &belt(), &None, memory());
    assert!(!made.registry.iter().any(|tool| tool.name == "bash"));
    assert!(made.system_prompt.as_ref().unwrap().contains("planning-only mode"));
    made.exit_plan_mode(&belt(), &Vec::new(), &None);
    assert!(made.registry.iter().any(|tool| tool.name == "bash"));
    assert!(!made.config.plan_mode);
    assert!(!made.system_prompt.as_ref().unwrap().contains("planning-only mode"));
    assert!(matches!(
        &made.history[0].content,
        MessageContent::Text(text) if Some(text) == made.system_prompt.as_ref()
    ));
}

#[test]
fn a_changed_model_keeps_the_history() {
    let mut made = session(SessionId(1));
    made.history.push(Message::user("hello".to_string()));
    made.update_llm_provider(
        Some("fast".to_string()),
        Some(5000),
        &belt(),
        &Vec::new(),
        &None,
    );
    assert_eq!(made.config.model_profile.as_deref(), Some("fast"));
    assert_eq!(made.max_context_window, Some(5000));
    assert_eq!(made.history.len(), 2);
}

#[test]
fn a_saved_session_comes_back() {
    let id = SessionId::new();
    let mut before = session(id);
    before.history.push(Message::user("hello".to_string()));
    before.history.push(Message::assistant_tool_use(
        Some("trying".to_string()),
        vec![],
    ));
    before.config.session_group = Some("group".to_string());
    before.created_at = "2026-01-02T03:04:05Z".to_string();
    before.last_permission = Some(PermissionOutcome {
        tool_name: "bash".to_string(),
        verdict: PermissionVerdict::Denied {
            reason: "no".to_string(),
        },
    });
    before.schedule_session_memory_refresh(true);
    before.finish_session_memory_refresh(
        Some(1),
        None,
        Some("Saying hello".to_string()),
    );
    let saved = before.snapshot(SessionState::Idle);
    let skills = vec![Skill {
        prompt: SkillPrompt {
            name: "review".to_string(),
            system_prompt: None,
        },
        tools: vec![tool("lint", true)],
    }];
    let back = Session::from_persisted(&saved, skills, Some(77), &belt(), &None, memory());
    assert_eq!(back.id, id);
    assert_eq!(back.state, SessionState::Idle);
    assert_eq!(back.max_context_window, Some(77));
    assert_eq!(back.python_group, "group");
    assert_eq!(back.created_at, "2026-01-02T03:04:05Z");
    assert!(matches!(
        back.last_permission,
        Some(PermissionOutcome { tool_name, verdict: PermissionVerdict::Denied { reason } })
            if tool_name == "bash" && reason == "no"
    ));
    assert_eq!(back.memory.last_summarized_message_index, Some(1));
    assert_eq!(back.memory.listing_summary.as_deref(), Some("Saying hello"));
    assert_eq!(back.diagnostics.and_then(|kept| kept.refreshed_index), Some(1));
    assert_eq!(back.config.skill_names, vec!["review".to_string()]);
    assert!(back.registry.iter().any(|info| info.name == "lint"));
    assert!(matches!(
        &back.history[1].content,
        MessageContent::Text(text) if text == "hello"
    ));
}

#[test]
fn restore_session_sanitizes_zombie_tool_calls_before_next_provider_request() {
    let id = SessionId::new();
    let mut saved = session(id).snapshot(SessionState::Idle);
    saved.history = vec![
        Message::user("run a tool".to_string()),
        Message::assistant_tool_use(
            Some("calling read_file".to_string()),
            vec![ToolUseRequest {
                tool_use_id: "call_zombie".to_string(),
                tool_name: "read_file".to_string(),
                arguments: Arguments::Object(vec![Member {
                    key: "path".to_string(),
                    value: ArgumentValue::Text("Cargo.toml".to_string()),
                }]),
            }],
        ),
    ];
    let mut back = Session::from_persisted(&saved, Vec::new(), None, &belt(), &None, memory());
    back.history.push(Message::user("resume".to_string()));
    assert!(back
        .history
        .iter()
        .all(|message| !matches!(message.content, MessageContent::ToolUse { .. })));
    assert!(back.history.iter().any(|message| matches!(
        &message.content,
        MessageContent::Text(text) if text == "calling read_file"
    )));
}

#[test]
fn a_memory_refresh_runs_alone() {
    let mut made = session(SessionId(1));
    made.history.push(Message::user("hello".to_string()));
    assert!(made.schedule_session_memory_refresh(true));
    assert!(!made.schedule_session_memory_refresh(true));
    made.finish_session_memory_refresh(
        Some(1),
        Some("2026-01-02T03:04:05Z".to_string()),
        Some("Saying hello".to_string()),
    );
    assert_eq!(made.memory.last_summarized_message_index, Some(1));
    assert_eq!(made.memory.listing_summary.as_deref(), Some("Saying hello"));
    assert!(!made.schedule_session_memory_refresh(false));
    assert!(made.schedule_session_memory_refresh(true));
}

#[test]
fn session_ids_are_uuids() {
    let id = SessionId(0x550e8400_e29b_41d4_a716_446655440000);
    assert_eq!(id.text(), "550e8400-e29b-41d4-a716-446655440000");
    assert_eq!(parse_session_id(&id.text()), Some(id));
    assert_eq!(
        parse_session_id("{550E8400-E29B-41D4-A716-446655440000}"),
        Some(id)
    );
    assert_eq!(parse_session_id("not a session"), None);
    let drawn = SessionId::new();
    assert_eq!(drawn.text().as_bytes()[14], b'4');
    assert_ne!(drawn, SessionId::new());
    assert_eq!(
        id.debug_text(),
        "SessionId(550e8400-e29b-41d4-a716-446655440000)"
    );
}

#[test]
fn pending_results_say_whether_they_were_awaited() {
    let waiting = waits_for(SessionId(1), "toolu_wait", MessageSource::Any);
    let result: PendingResult = result_for_wait(
        &waiting,
        &ToolOutcome::Success {
            output: "hi".to_string(),
        },
    )
    .unwrap();
    assert!(result.from_wait);
    assert_eq!(result.tool_use_id, "toolu_wait");
    assert!(!result.is_error);
    let cancelled = result_for_wait(&waiting, &ToolOutcome::Cancelled).unwrap();
    assert_eq!(cancelled.output, "Tool execution was cancelled");
    assert!(cancelled.is_error);
}

#[test]
fn calls_are_held_with_their_arguments() {
    let call = PendingToolCall {
        tool_use_id: "toolu_1".to_string(),
        tool_name: "read_file".to_string(),
        arguments: quine_core::arguments::Arguments::Other("null".to_string()),
    };
    assert_eq!(call.arguments.json(), "null");
}
