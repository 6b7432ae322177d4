//! Turns: the model, the tools it calls, and what stops them.

use quine_core::actor::{ActorNext, SessionActor, SessionCommand};
use quine_core::arguments::{ArgumentValue, Arguments, Member};
use quine_core::channel::{
    CoreOutput, InteractionRequest, MailboxMessage, MessageSource, ReplyId, ToolOutcome,
    TurnStatus,
};
use quine_core::compaction::{CompactionSnapshot, CompactionTrigger};
use quine_core::compaction_run::{
    CompactionAction, CompactionEvent, CompactionOutcome, CompactionRun,
};
use quine_core::context::{
    PermissionPromptBehavior, Session, SessionInit, SessionMemory, ToolBelt, ToolSpec,
};
use quine_core::core_loop::CoreInput;
use quine_core::core_sessions::{classify_tool_input, ToolInput};
use quine_core::effect::{Effect, Reply};
use quine_core::error::{failure, CoreError, FailedTask};
use quine_core::filesystem::OverlayFilesystem;
use quine_core::message::{
    Message, MessageContent, PendingToolCall, Role, TokenUsage, ToolDefinition,
};
use quine_core::model_call::{
    generate_session_listing_summary, summarize_history, ModelCall, ModelEvent, ModelOutcome,
    ModelReply,
};
use quine_core::permissions::{PermissionResource, PermissionScope, PermissionVerdict};
use quine_core::prompt::PromptMemoryMode;
use quine_core::session::{ExitStatus, SessionId, SessionSignal, SessionState};
use quine_core::session_tree::SessionTree;
use quine_core::status_report::SessionStatusReport;
use quine_core::tool_run::{
    ApprovalChoice, ToolRun, ToolRunAction, ToolRunEvent,
};
use quine_core::tools::{CompletedToolCall, ToolBatch, ToolReturn};
use quine_core::turn::{Host, Turn, TurnAction, TurnEvent, TurnOutcome};
use quine_core::wait::SuspendedWait;

const ID: SessionId = SessionId(1);

fn spec(name: &str, read_only: bool, interactive: bool) -> ToolSpec {
    ToolSpec {
        definition: ToolDefinition {
            name: name.to_string(),
            description: String::new(),
            parameters: "{}".to_string(),
            read_only,
            idempotent: read_only,
        },
        interactive,
    }
}

fn make(prompt_behavior: PermissionPromptBehavior) -> Session {
    let belt = ToolBelt {
        observing: vec![
            spec("read_file", true, false),
            spec("find", true, false),
            spec("read_probe_one", true, false),
            spec("read_probe_two", true, false),
            spec("ask_user", true, true),
            spec("recv_message", true, false),
            spec("wait_child", true, false),
            spec("spawn", false, false),
        ],
        acting: vec![spec("write_probe", false, false)],
        web_configured: false,
    };
    let init = SessionInit {
        system_prompt: None,
        skills: Vec::new(),
        working_directory: "/work".to_string(),
        plan_mode: false,
        prompt_behavior,
        initial_messages: Vec::new(),
        max_context_window: None,
        prompt_memory_mode: PromptMemoryMode::Disabled,
        agent_key: None,
        team_key: None,
        model_profile: None,
        session_group: None,
        auto_compact_threshold_percent: 60,
        status_report_min_tool_rounds: 10,
    };
    let memory = SessionMemory {
        enabled: false,
        refresh_in_flight: false,
        last_summarized_message_index: None,
        last_refresh_at: None,
        listing_summary: None,
    };
    Session::new(ID, init, &belt, &None, memory)
}

fn session() -> Session {
    make(PermissionPromptBehavior::Interactive)
}

fn actor() -> SessionActor {
    SessionActor {
        parent_id: None,
        session: session(),
        deferred: std::collections::VecDeque::new(),
    }
}

fn call(id: &str, name: &str, members: Vec<(&str, ArgumentValue)>) -> PendingToolCall {
    PendingToolCall {
        tool_use_id: id.to_string(),
        tool_name: name.to_string(),
        arguments: Arguments::Object(
            members
                .into_iter()
                .map(|(key, value)| Member {
                    key: key.to_string(),
                    value,
                })
                .collect(),
        ),
    }
}

fn text(value: &str) -> ArgumentValue {
    ArgumentValue::Text(value.to_string())
}

fn says(reply: &str) -> TurnEvent {
    TurnEvent::Model(ModelOutcome::Answered(ModelReply::Text {
        text: reply.to_string(),
        usage: Some(TokenUsage {
            input_tokens: 10,
            output_tokens: 2,
        }),
    }))
}

fn calls(calls: Vec<PendingToolCall>) -> TurnEvent {
    TurnEvent::Model(ModelOutcome::Answered(ModelReply::ToolCalls {
        text_before: None,
        calls,
        usage: None,
    }))
}

fn outputs(effects: Vec<Effect>) -> Vec<CoreOutput> {
    effects
        .into_iter()
        .filter_map(|effect| match effect {
            Effect::Output(output) => Some(output),
            _ => None,
        })
        .collect()
}

/// Runs a turn against answers of the model, with tools that give back their own names. Of
/// tools that run side by side the last one ends first.
fn run_turn(
    host: Host,
    session: &mut Session,
    mut answers: Vec<TurnEvent>,
) -> (Vec<CoreOutput>, TurnOutcome) {
    let (mut turn, mut action) = Turn::begin(host);
    let mut sent = Vec::new();
    loop {
        let event = match action {
            TurnAction::ArchiveOldResults => {
                TurnEvent::Archived(session.history.iter().map(|_| None).collect())
            }
            TurnAction::Compact => TurnEvent::Compacted,
            TurnAction::BuildMessages => TurnEvent::Built(session.provider_messages(&None)),
            TurnAction::CallModel { .. } => answers.remove(0),
            TurnAction::GenerateReport { .. } => TurnEvent::Reported(SessionStatusReport {
                active: true,
                progress_percent: 50,
                confidence_percent: 50,
                completed_summary: "half".to_string(),
                remaining_summary: "half".to_string(),
                tool_rounds_observed: 1,
            }),
            TurnAction::RunTool(call) => TurnEvent::ToolFinished {
                outcome: ToolOutcome::Success {
                    output: call.tool_name,
                },
                duration_us: 5,
            },
            TurnAction::RunBatch(calls) => {
                let mut batch = ToolBatch::start(calls.len());
                for (index, call) in calls.into_iter().enumerate().rev() {
                    batch.record(CompletedToolCall {
                        index,
                        tool_use_id: call.tool_use_id,
                        result: ToolOutcome::Success {
                            output: call.tool_name.clone(),
                        },
                        tool_name: call.tool_name,
                        arguments: call.arguments,
                        duration_us: 5,
                    });
                }
                assert_eq!(batch.remaining, 0);
                TurnEvent::BatchFinished(batch.finish())
            }
            TurnAction::PrepareResult { output, .. } => TurnEvent::Prepared(output),
            TurnAction::ShowPlan { .. } => TurnEvent::Plan(None),
            TurnAction::Finished(outcome) => return (sent, outcome),
        };
        let (effects, next) = turn.step(session, event, 100);
        sent.extend(outputs(effects));
        action = next;
    }
}

#[test]
fn user_message_produces_turn_complete() {
    let mut actor = actor();
    let mut tree = SessionTree::new();
    let (effects, next) =
        actor.handle_user_message(&mut tree, "hello".to_string(), "turn-1".to_string());
    let begun = outputs(effects);
    assert!(matches!(
        begun[0],
        CoreOutput::SessionStateChanged {
            state: SessionState::Streaming,
            ..
        }
    ));
    assert!(matches!(
        &begun[1],
        CoreOutput::TurnStarted { session_id, turn_id } if *session_id == ID && turn_id == "turn-1"
    ));
    assert!(matches!(next, ActorNext::RunTurn { .. }));

    let (sent, outcome) = run_turn(Host::Actor, &mut actor.session, vec![says("")]);
    assert!(matches!(sent[0], CoreOutput::TextComplete { .. }));
    assert!(matches!(
        sent[1],
        CoreOutput::TurnComplete {
            status: TurnStatus::Success,
            ..
        }
    ));
    assert!(matches!(outcome, TurnOutcome::Completed(_)));
    assert_eq!(actor.session.state, SessionState::Idle);
}

#[test]
fn user_message_streams_llm_response() {
    let mut answer = ModelCall::ask();
    let (sent, end) = answer.take(ID, ModelEvent::Opened);
    assert!(sent.is_empty() && end.is_none());
    let (sent, _) = answer.take(ID, ModelEvent::Text("Hello from the LLM!".to_string()));
    match &sent[0] {
        CoreOutput::StreamDelta { delta, .. } => assert_eq!(delta, "Hello from the LLM!"),
        other => panic!("expected StreamDelta, got {other:?}"),
    }
    let (_, end) = answer.take(ID, ModelEvent::Done(None));
    let outcome = end.expect("the answer is complete");

    let mut session = session();
    session.history.push(Message::user("hello".to_string()));
    let (sent, _) = run_turn(Host::Actor, &mut session, vec![TurnEvent::Model(outcome)]);
    match &sent[0] {
        CoreOutput::TextComplete { full_text, .. } => assert_eq!(full_text, "Hello from the LLM!"),
        other => panic!("expected TextComplete, got {other:?}"),
    }
    assert!(matches!(sent[1], CoreOutput::TurnComplete { .. }));
    assert!(matches!(
        &session.history.last().unwrap().content,
        MessageContent::Text(said) if said == "Hello from the LLM!"
    ));
}

#[test]
fn llm_stream_error_emits_session_error_and_failed_turn_complete() {
    let mut answer = ModelCall::ask();
    answer.take(ID, ModelEvent::Opened);
    let (sent, _) = answer.take(ID, ModelEvent::Reasoning("thinking".to_string()));
    assert!(matches!(
        &sent[0],
        CoreOutput::ReasoningDelta { delta, .. } if delta == "thinking"
    ));
    let (_, end) = answer.take(
        ID,
        ModelEvent::Failed(
            "openai_compat stream read failed: error decoding response body".to_string(),
        ),
    );
    let mut session = session();
    session.state = SessionState::Streaming;
    let (sent, outcome) = run_turn(
        Host::Actor,
        &mut session,
        vec![TurnEvent::Model(end.expect("the stream has failed"))],
    );
    assert!(matches!(
        sent[0],
        CoreOutput::SessionStateChanged {
            state: SessionState::Idle,
            ..
        }
    ));
    assert!(matches!(
        &sent[1],
        CoreOutput::SessionError { error: CoreError::LlmError { message }, .. }
            if message.contains("openai_compat stream read failed")
                && message.contains("error decoding response body")
    ));
    assert!(matches!(
        sent[2],
        CoreOutput::TurnComplete {
            status: TurnStatus::Failed,
            ..
        }
    ));
    assert!(matches!(outcome, TurnOutcome::Failed(_)));
}

#[test]
fn an_interrupted_answer_ends_the_turn() {
    let mut answer = ModelCall::ask();
    answer.take(ID, ModelEvent::Opened);
    answer.take(ID, ModelEvent::Text("half an ans".to_string()));
    let (_, end) = answer.take(ID, ModelEvent::Interrupted);
    assert!(matches!(end, Some(ModelOutcome::Interrupted)));
    let mut session = session();
    session.interrupt();
    let (sent, outcome) = run_turn(
        Host::Actor,
        &mut session,
        vec![TurnEvent::Model(ModelOutcome::Interrupted)],
    );
    assert!(matches!(outcome, TurnOutcome::Cancelled));
    assert!(sent.iter().any(|output| matches!(
        output,
        CoreOutput::TurnComplete {
            status: TurnStatus::Cancelled,
            ..
        }
    )));
}

#[test]
fn call_llm_with_messages_deduplicates_tool_call_ids() {
    let mut answer = ModelCall::ask();
    answer.take(ID, ModelEvent::Opened);
    for (id, name, key, value) in [
        ("toolu_duplicate", "read_file", "path", "first"),
        ("toolu_duplicate", "read_file", "path", "second"),
        ("toolu_unique", "find", "name", "*.rs"),
    ] {
        answer.take(
            ID,
            ModelEvent::ToolCall(call(id, name, vec![(key, text(value))])),
        );
    }
    let (_, end) = answer.take(ID, ModelEvent::Done(None));
    match end {
        Some(ModelOutcome::Answered(ModelReply::ToolCalls { calls, .. })) => {
            assert_eq!(calls.len(), 2);
            assert_eq!(calls[0].tool_use_id, "toolu_duplicate");
            assert_eq!(calls[0].arguments.text("path").as_deref(), Some("first"));
            assert_eq!(calls[1].tool_use_id, "toolu_unique");
        }
        other => panic!("expected tool calls, got {other:?}"),
    }
}

#[test]
fn tools_run_one_after_another_and_their_results_follow_in_order() {
    let mut session = session();
    session.history.push(Message::user("look".to_string()));
    let before = session.history.len();
    let (sent, outcome) = run_turn(
        Host::Actor,
        &mut session,
        vec![
            calls(vec![
                call("toolu_1", "read_file", vec![]),
                call("toolu_2", "find", vec![]),
            ]),
            says("done"),
        ],
    );
    assert!(matches!(outcome, TurnOutcome::Completed(Some(said)) if said == "done"));
    let results: Vec<&CoreOutput> = sent
        .iter()
        .filter(|output| matches!(output, CoreOutput::ToolResult { .. }))
        .collect();
    assert!(matches!(
        results[0],
        CoreOutput::ToolResult { tool_use_id, content, .. }
            if tool_use_id == "toolu_1" && content == "read_file"
    ));
    assert!(matches!(
        results[1],
        CoreOutput::ToolResult { tool_use_id, .. } if tool_use_id == "toolu_2"
    ));
    let roles: Vec<Role> = session.history[before..].iter().map(|m| m.role).collect();
    assert_eq!(
        roles,
        vec![Role::Assistant, Role::Tool, Role::Tool, Role::Assistant]
    );
    let answered: Vec<&str> = session
        .history
        .iter()
        .filter_map(|message| match &message.content {
            MessageContent::ToolResult { tool_use_id, .. } => Some(tool_use_id.as_str()),
            _ => None,
        })
        .collect();
    assert_eq!(answered, vec!["toolu_1", "toolu_2"]);
    assert_eq!(session.last_input_tokens, Some(10));
}

#[test]
fn concurrent_tool_batch_preserves_request_order_in_outputs() {
    let mut session = session();
    session.history.push(Message::user("inspect".to_string()));
    let (sent, outcome) = run_turn(
        Host::Core,
        &mut session,
        vec![
            calls(vec![
                call("toolu_read", "read_file", vec![]),
                call("toolu_find", "find", vec![]),
            ]),
            says("done"),
        ],
    );
    assert!(matches!(outcome, TurnOutcome::Completed(Some(ref text)) if text == "done"));
    let mut tool_request_ids = Vec::new();
    let mut tool_result_ids = Vec::new();
    let mut saw_text_complete = false;
    let mut saw_turn_complete = false;
    for event in sent {
        match event {
            CoreOutput::ToolRequest { tool_use_id, .. } => tool_request_ids.push(tool_use_id),
            CoreOutput::ToolResult { tool_use_id, .. } => tool_result_ids.push(tool_use_id),
            CoreOutput::TextComplete { full_text, .. } => {
                assert_eq!(full_text, "done");
                saw_text_complete = true;
            }
            CoreOutput::TurnComplete { .. } => saw_turn_complete = true,
            _ => {}
        }
    }
    assert_eq!(tool_request_ids, vec!["toolu_read", "toolu_find"]);
    assert_eq!(tool_result_ids, vec!["toolu_read", "toolu_find"]);
    assert!(saw_text_complete);
    assert!(saw_turn_complete);
}

#[test]
fn a_turn_compacts_at_the_percentage_of_its_session() {
    let first_action = |percent: u8| {
        let mut session = session();
        session.history.push(Message::user("hello".to_string()));
        session.max_context_window = Some(100);
        session.last_input_tokens = Some(55);
        session.auto_compact_threshold_percent = percent;
        let (mut turn, _) = Turn::begin(Host::Actor);
        let archived = TurnEvent::Archived(session.history.iter().map(|_| None).collect());
        turn.step(&mut session, archived, 1).1
    };
    assert!(matches!(first_action(50), TurnAction::Compact));
    assert!(matches!(first_action(55), TurnAction::Compact));
    assert!(matches!(first_action(60), TurnAction::BuildMessages));
    assert!(matches!(first_action(100), TurnAction::BuildMessages));
}

#[test]
fn stop_signal_interrupts_running_tool_and_skips_remaining_tool_calls() {
    let mut session = session();
    session.history.push(Message::user("run tools".to_string()));
    session.state = SessionState::Streaming;
    let (mut turn, _) = Turn::begin(Host::Core);
    let archived = TurnEvent::Archived(session.history.iter().map(|_| None).collect());
    turn.step(&mut session, archived, 1);
    let built = TurnEvent::Built(session.provider_messages(&None));
    turn.step(&mut session, built, 2);
    let (effects, action) = turn.step(
        &mut session,
        calls(vec![
            call("tc_blocking", "read_probe_one", vec![]),
            call("tc_marker", "read_probe_two", vec![]),
        ]),
        3,
    );
    let mut sent = outputs(effects);
    assert!(matches!(action, TurnAction::RunTool(ref c) if c.tool_use_id == "tc_blocking"));

    session.interrupt();
    let (effects, mut action) = turn.step(
        &mut session,
        TurnEvent::ToolFinished {
            outcome: ToolOutcome::Cancelled,
            duration_us: 4,
        },
        4,
    );
    sent.extend(outputs(effects));
    loop {
        let event = match action {
            TurnAction::Finished(outcome) => {
                assert!(matches!(outcome, TurnOutcome::Cancelled));
                break;
            }
            TurnAction::PrepareResult { output, .. } => TurnEvent::Prepared(output),
            other => panic!("nothing else should be done, got {other:?}"),
        };
        let (effects, next) = turn.step(&mut session, event, 5);
        sent.extend(outputs(effects));
        action = next;
    }
    let asked: Vec<&str> = sent
        .iter()
        .filter_map(|output| match output {
            CoreOutput::ToolRequest { tool_use_id, .. } => Some(tool_use_id.as_str()),
            _ => None,
        })
        .collect();
    assert_eq!(asked, vec!["tc_blocking"]);
    assert!(sent
        .iter()
        .any(|output| matches!(output, CoreOutput::TurnComplete { .. })));
}

#[test]
fn busy_session_buffers_user_messages_until_current_turn_finishes() {
    let mut actor = actor();
    let mut tree = SessionTree::new();
    actor.handle_user_message(&mut tree, "first".to_string(), "t1".to_string());
    let (effects, stops) = actor.handle_control_command(
        &mut tree,
        SessionCommand::UserMessage {
            content: "second".to_string(),
            turn_id: "t2".to_string(),
        },
    );
    assert!(effects.is_empty());
    assert!(!stops);
    assert_eq!(actor.session.history.len(), 2);
    let (_, outcome) = run_turn(Host::Actor, &mut actor.session, vec![says("first reply")]);
    actor.finish_turn(&tree, outcome);
    match actor.next_deferred() {
        Some(SessionCommand::UserMessage { content, .. }) => assert_eq!(content, "second"),
        other => panic!("expected the message that waited, got {other:?}"),
    }
    assert!(actor.next_deferred().is_none());
}

#[test]
fn a_stop_reaches_the_tool_of_a_busy_session() {
    let mut actor = actor();
    let mut tree = SessionTree::new();
    actor.handle_user_message(&mut tree, "first".to_string(), "t1".to_string());
    actor.session.cancel_armed = true;
    let (effects, stops) =
        actor.handle_control_command(&mut tree, SessionCommand::Signal(SessionSignal::Stop));
    assert!(stops);
    assert!(effects
        .iter()
        .any(|effect| matches!(effect, Effect::CancelTool)));
    assert!(actor.session.interrupted);
}

#[test]
fn stale_external_tool_result_is_ignored_when_session_is_idle() {
    let mut actor = actor();
    let tree = SessionTree::new();
    let next = actor.handle_external_tool_result(
        &tree,
        "toolu_stale".to_string(),
        ToolOutcome::Success {
            output: "stale".to_string(),
        },
    );
    assert!(matches!(next, ActorNext::Continue));
    assert_eq!(actor.session.history.len(), 1);
}

#[test]
fn recv_message_tool_receives_mailbox_message_without_deadlock() {
    let sender = SessionId(2);
    let mut actor = actor();
    let mut tree = SessionTree::new();
    let files = OverlayFilesystem::new("/work".to_string(), "/");
    let (mut run, _) = ToolRun::begin(
        Host::Actor,
        &mut actor.session,
        &tree,
        call(
            "toolu_recv",
            "recv_message",
            vec![("source", text(&sender.text()))],
        ),
        &files,
    );
    let (_, action) = run.step(
        &mut actor.session,
        &mut tree,
        &Vec::new(),
        1000,
        ToolRunEvent::Permission(PermissionVerdict::Allowed),
    );
    assert!(matches!(action, ToolRunAction::Finished(_)));
    assert_eq!(actor.session.state, SessionState::Waiting);
    assert!(actor.session.suspended_wait.is_some());

    let next = actor.handle_mailbox_message(
        &tree,
        MailboxMessage {
            from: sender,
            content: "hello".to_string(),
        },
    );
    let result = match next {
        ActorNext::PrepareResult(result) => result,
        other => panic!("expected a result, got {other:?}"),
    };
    assert_eq!(result.tool_use_id, "toolu_recv");
    assert!(result.output.contains("hello"));
    let prepared = result.output.clone();
    let (_, next) = actor.record_result(&mut tree, result, Ok(prepared));
    assert!(matches!(next, ActorNext::RunTurn { .. }));
    assert!(actor.session.suspended_wait.is_none());
    assert!(tree.waits.is_empty());
}

#[test]
fn a_wait_that_would_never_end_is_refused() {
    let mut session = session();
    let mut tree = SessionTree::new();
    tree.register_active_wait(SessionId(2), ID).unwrap();
    let files = OverlayFilesystem::new("/work".to_string(), "/");
    let (mut run, _) = ToolRun::begin(
        Host::Actor,
        &mut session,
        &tree,
        call(
            "toolu_recv",
            "recv_message",
            vec![("source", text(&SessionId(2).text()))],
        ),
        &files,
    );
    let (_, action) = run.step(
        &mut session,
        &mut tree,
        &Vec::new(),
        1000,
        ToolRunEvent::Permission(PermissionVerdict::Allowed),
    );
    assert!(matches!(
        action,
        ToolRunAction::Finished(ToolOutcome::Error { message }) if message.contains("deadlock")
    ));
    assert!(session.suspended_wait.is_none());
}

fn begin_tool(
    session: &mut Session,
    tree: &SessionTree,
    call: PendingToolCall,
) -> (ToolRun, ToolRunAction) {
    let files = OverlayFilesystem::new("/work".to_string(), "/");
    ToolRun::begin(Host::Core, session, tree, call, &files)
}

fn asks() -> PermissionVerdict {
    PermissionVerdict::NeedsApproval {
        request: InteractionRequest {
            prompt: "May I?".to_string(),
            options: vec!["approve once".to_string(), "deny once".to_string()],
            source_label: Some("permission:write_probe".to_string()),
        },
        reason: "mode default".to_string(),
    }
}

#[test]
fn execute_tool_call_waits_for_permission_approval_and_resumes_on_approve() {
    let mut session = session();
    let mut tree = SessionTree::new();
    let (mut run, action) = begin_tool(&mut session, &tree, call("toolu_w", "write_probe", vec![]));
    assert!(matches!(
        action,
        ToolRunAction::CheckPermission { ref request, .. } if request.tool_name == "write_probe"
    ));
    let (effects, action) = run.step(
        &mut session,
        &mut tree,
        &Vec::new(),
        0,
        ToolRunEvent::Permission(asks()),
    );
    assert!(matches!(action, ToolRunAction::AwaitApproval));
    assert!(session.approval_pending);
    assert_eq!(session.state, SessionState::Paused);
    assert!(outputs(effects).iter().any(|output| matches!(
        output,
        CoreOutput::InteractionNeeded { request, .. }
            if request.source_label.as_deref().is_some_and(|label| label.starts_with("permission:"))
    )));
    let (_, action) = run.step(
        &mut session,
        &mut tree,
        &Vec::new(),
        0,
        ToolRunEvent::Answer(Some(ApprovalChoice::ApproveOnce)),
    );
    assert!(matches!(action, ToolRunAction::Execute { .. }));
    assert!(!session.approval_pending);
    let (_, action) = run.step(
        &mut session,
        &mut tree,
        &Vec::new(),
        0,
        ToolRunEvent::Returned(ToolReturn::Output {
            content: "mutated".to_string(),
            is_error: false,
        }),
    );
    assert!(matches!(
        action,
        ToolRunAction::Finished(ToolOutcome::Success { output }) if output == "mutated"
    ));
    assert!(!session.cancel_armed);
}

#[test]
fn execute_tool_call_records_permission_outcome_before_execution() {
    let mut session = session();
    let mut tree = SessionTree::new();
    assert!(session.last_permission.is_none());
    let (mut run, _) = begin_tool(
        &mut session,
        &tree,
        call("toolu_permission", "write_probe", vec![]),
    );
    run.step(
        &mut session,
        &mut tree,
        &Vec::new(),
        0,
        ToolRunEvent::Permission(asks()),
    );
    let (_, action) = run.step(
        &mut session,
        &mut tree,
        &Vec::new(),
        0,
        ToolRunEvent::Answer(Some(ApprovalChoice::DenyOnce)),
    );
    assert!(matches!(
        action,
        ToolRunAction::Finished(ToolOutcome::Error { message })
            if message.contains("permission denied")
    ));
    let kept = session
        .last_permission
        .as_ref()
        .expect("permission outcome should be recorded");
    assert_eq!(kept.tool_name, "write_probe");
    assert!(matches!(
        &kept.verdict,
        PermissionVerdict::NeedsApproval { reason, .. } if reason == "mode default"
    ));
}

#[test]
fn execute_tool_call_resolves_permission_approval_to_denial() {
    let mut session = session();
    let mut tree = SessionTree::new();
    let (mut run, _) = begin_tool(&mut session, &tree, call("toolu_w", "write_probe", vec![]));
    run.step(
        &mut session,
        &mut tree,
        &Vec::new(),
        0,
        ToolRunEvent::Permission(asks()),
    );
    let (_, action) = run.step(
        &mut session,
        &mut tree,
        &Vec::new(),
        0,
        ToolRunEvent::Answer(Some(ApprovalChoice::DenyOnce)),
    );
    assert!(matches!(
        action,
        ToolRunAction::Finished(ToolOutcome::Error { message }) if message.contains("permission denied")
    ));
    assert!(!session.approval_pending);
}

#[test]
fn execute_tool_call_denies_headless_permission_request_without_interaction() {
    let mut session = make(PermissionPromptBehavior::Headless);
    let mut tree = SessionTree::new();
    let (mut run, _) = begin_tool(&mut session, &tree, call("toolu_w", "write_probe", vec![]));
    let (effects, action) = run.step(
        &mut session,
        &mut tree,
        &Vec::new(),
        0,
        ToolRunEvent::Permission(PermissionVerdict::Denied {
            reason: "headless".to_string(),
        }),
    );
    assert!(matches!(
        action,
        ToolRunAction::Finished(ToolOutcome::Error { message }) if message.contains("permission denied")
    ));
    assert!(outputs(effects).is_empty());
    assert!(!session.approval_pending);
}

#[test]
fn execute_tool_call_consumes_cancel_for_non_interactive_tool() {
    let mut session = session();
    let mut tree = SessionTree::new();
    let (mut run, _) = begin_tool(&mut session, &tree, call("toolu_c", "read_file", vec![]));
    assert!(session.cancel_armed);
    let (_, action) = run.step(
        &mut session,
        &mut tree,
        &Vec::new(),
        0,
        ToolRunEvent::Permission(PermissionVerdict::Allowed),
    );
    assert!(matches!(action, ToolRunAction::Execute { interactive: false }));
    session.interrupt();
    let (_, action) = run.step(
        &mut session,
        &mut tree,
        &Vec::new(),
        0,
        ToolRunEvent::Interrupted,
    );
    assert!(matches!(
        action,
        ToolRunAction::Finished(ToolOutcome::Cancelled)
    ));
    assert!(!session.cancel_armed);
}

#[test]
fn execute_tool_call_consumes_stop_signal_for_non_interactive_tool() {
    let mut session = session();
    let mut tree = SessionTree::new();
    let (mut run, _) = begin_tool(
        &mut session,
        &tree,
        call("toolu_signal_cancel", "read_file", vec![]),
    );
    run.step(
        &mut session,
        &mut tree,
        &Vec::new(),
        0,
        ToolRunEvent::Permission(PermissionVerdict::Allowed),
    );
    let signal = CoreInput::Signal {
        session_id: ID,
        signal: SessionSignal::Stop,
    };
    assert!(matches!(
        classify_tool_input(signal, ID, false),
        ToolInput::Stop
    ));
    session.interrupt();
    let (_, action) = run.step(
        &mut session,
        &mut tree,
        &Vec::new(),
        0,
        ToolRunEvent::Interrupted,
    );
    assert!(matches!(
        action,
        ToolRunAction::Finished(ToolOutcome::Cancelled)
    ));
    assert!(!session.cancel_armed);
    assert!(session.interrupted);
}

#[test]
fn an_interactive_tool_is_handed_the_answer_of_the_user() {
    let mut session = session();
    let mut tree = SessionTree::new();
    let (mut run, _) = begin_tool(&mut session, &tree, call("toolu_a", "ask_user", vec![]));
    let (_, action) = run.step(
        &mut session,
        &mut tree,
        &Vec::new(),
        0,
        ToolRunEvent::Permission(PermissionVerdict::Allowed),
    );
    assert!(matches!(action, ToolRunAction::Execute { interactive: true }));
    let (effects, action) = run.step(
        &mut session,
        &mut tree,
        &Vec::new(),
        0,
        ToolRunEvent::Requested(InteractionRequest {
            prompt: "Proceed?".to_string(),
            options: Vec::new(),
            source_label: None,
        }),
    );
    assert!(matches!(action, ToolRunAction::AwaitAnswer));
    assert!(outputs(effects).iter().any(|output| matches!(
        output,
        CoreOutput::InteractionNeeded { request, .. } if request.prompt == "Proceed?"
    )));
    let (_, action) = run.step(
        &mut session,
        &mut tree,
        &Vec::new(),
        0,
        ToolRunEvent::Answered,
    );
    assert!(matches!(action, ToolRunAction::AwaitTool));
}

#[test]
fn unknown_tools_are_refused() {
    let mut session = session();
    let tree = SessionTree::new();
    let (_, action) = begin_tool(&mut session, &tree, call("toolu_u", "no_such_tool", vec![]));
    assert!(matches!(
        action,
        ToolRunAction::Finished(ToolOutcome::Error { message })
            if message == "unknown tool: no_such_tool"
    ));
}

#[test]
fn permission_is_asked_for_the_path_that_a_tool_writes() {
    let mut session = session();
    session.registry.push(quine_core::tools::ToolInfo {
        name: "apply_patch".to_string(),
        interactive: false,
        read_only: false,
        idempotent: false,
    });
    let tree = SessionTree::new();
    let (_, action) = begin_tool(
        &mut session,
        &tree,
        call(
            "toolu_p",
            "apply_patch",
            vec![("file_path", text("src/lib.rs"))],
        ),
    );
    match action {
        ToolRunAction::CheckPermission { request, .. } => {
            assert_eq!(request.scope, PermissionScope::Write);
            assert!(matches!(
                request.resource,
                PermissionResource::Path { ref path } if path.ends_with("src/lib.rs")
            ));
        }
        other => panic!("expected a permission check, got {other:?}"),
    }
}

#[test]
fn spawned_sessions_are_named_to_the_model() {
    let mut session = session();
    let mut tree = SessionTree::new();
    let (mut run, _) = begin_tool(
        &mut session,
        &tree,
        call("toolu_s", "spawn", vec![("task", text("count files"))]),
    );
    let (_, action) = run.step(
        &mut session,
        &mut tree,
        &Vec::new(),
        0,
        ToolRunEvent::Permission(PermissionVerdict::Allowed),
    );
    assert!(matches!(
        action,
        ToolRunAction::Spawn { ref task, .. } if task == "count files"
    ));
    let child = SessionId(0x22222222_2222_4222_8222_222222222222);
    let (_, action) = run.step(
        &mut session,
        &mut tree,
        &Vec::new(),
        0,
        ToolRunEvent::Spawned(child),
    );
    assert!(matches!(
        action,
        ToolRunAction::Finished(ToolOutcome::Success { output }) if output.contains(&child.text())
    ));
}

#[test]
fn compaction_prefers_the_session_memory() {
    let mut session = session();
    session.memory.enabled = true;
    session.memory.last_summarized_message_index = Some(2);
    for message in [
        Message::user("old".to_string()),
        Message::assistant("answer".to_string()),
        Message::user("latest".to_string()),
    ] {
        session.history.push(message);
    }
    let (mut run, action) = CompactionRun::begin(&session, CompactionTrigger::Auto);
    assert!(matches!(action, CompactionAction::Archive { generation: 1 }));
    let action = run.step(
        &mut session,
        CompactionEvent::Archived("/archive/0001.json".to_string()),
    );
    assert!(matches!(action, CompactionAction::ReadMemory));
    let action = run.step(
        &mut session,
        CompactionEvent::Memory(Some(CompactionSnapshot {
            summary_markdown: "what was done".to_string(),
            last_summarized_message_index: 2,
        })),
    );
    assert!(matches!(
        action,
        CompactionAction::Finished(CompactionOutcome::Done)
    ));
    assert_eq!(session.compaction_generation, 1);
    assert!(session.history.iter().any(|message| matches!(
        &message.content,
        MessageContent::Text(said) if said.contains("what was done")
    )));
    assert!(matches!(
        &session.history.last().unwrap().content,
        MessageContent::Text(said) if said == "latest"
    ));
}

#[test]
fn invalid_session_memory_compaction_falls_back() {
    let mut session = session();
    session.memory.enabled = true;
    session.history.push(Message::user("old".to_string()));
    session.history.push(Message::assistant("answer".to_string()));
    session.history.push(Message::user("latest".to_string()));
    let (mut run, _) = CompactionRun::begin(&session, CompactionTrigger::Manual);
    run.step(
        &mut session,
        CompactionEvent::Archived("/archive/0001.json".to_string()),
    );
    let action = run.step(&mut session, CompactionEvent::Memory(None));
    assert!(matches!(action, CompactionAction::Summarize(ref messages) if messages.len() == 2));
    let action = run.step(
        &mut session,
        CompactionEvent::Summary(ModelReply::Text {
            text: "legacy summary".to_string(),
            usage: None,
        }),
    );
    assert!(matches!(
        action,
        CompactionAction::Finished(CompactionOutcome::Done)
    ));
    assert!(session.history.iter().any(|message| matches!(
        &message.content,
        MessageContent::Text(said) if said.contains("legacy summary")
    )));
}

#[test]
fn a_failed_archive_leaves_the_history() {
    let mut session = session();
    session.history.push(Message::user("old".to_string()));
    session.history.push(Message::assistant("answer".to_string()));
    session.history.push(Message::user("latest".to_string()));
    let (mut run, _) = CompactionRun::begin(&session, CompactionTrigger::Auto);
    let action = run.step(
        &mut session,
        CompactionEvent::ArchivingFailed("disk full".to_string()),
    );
    assert!(matches!(
        action,
        CompactionAction::Finished(CompactionOutcome::Failed(CoreError::Internal { message }))
            if message.contains("disk full")
    ));
    assert_eq!(session.history.len(), 4);
    assert_eq!(session.compaction_generation, 0);
}

#[test]
fn a_child_is_over_when_its_turn_is() {
    let mut child = actor();
    child.parent_id = Some(SessionId(9));
    let tree = SessionTree::new();
    let (effects, next) = child.finish_turn(
        &tree,
        TurnOutcome::Failed("it broke".to_string()),
    );
    assert!(matches!(next, ActorNext::Stop));
    assert!(effects.iter().any(|effect| matches!(
        effect,
        Effect::ChildFinished { parent_id, status: ExitStatus::Failed { error }, .. }
            if *parent_id == SessionId(9) && error == "it broke"
    )));
}

#[test]
fn a_child_exit_wakes_the_session_that_waits_for_it() {
    let child = SessionId(7);
    let mut actor = actor();
    actor.session.state = SessionState::Waiting;
    actor.session.suspended_wait = Some(SuspendedWait::ChildExit {
        tool_use_id: "toolu_wait".to_string(),
        child_id: child,
        timeout_at: None,
    });
    let mut tree = SessionTree::new();
    tree.add_child(ID, child);
    tree.record_exit(
        child,
        ExitStatus::Success {
            output: "ready".to_string(),
        },
    );
    let next = actor.handle_child_exited(&tree, child);
    assert!(matches!(
        next,
        ActorNext::RenderExit(ExitStatus::Success { ref output }) if output == "ready"
    ));
    let next = actor.resume_with_exit("{\"status\":\"ready\"}".to_string());
    assert!(matches!(
        next,
        ActorNext::PrepareResult(ref result) if result.tool_use_id == "toolu_wait"
    ));
}

#[test]
fn questions_for_the_mailbox_are_answered() {
    let mut actor = actor();
    let mut tree = SessionTree::new();
    actor.session.mailbox.push_back(MailboxMessage {
        from: SessionId(3),
        content: "ping".to_string(),
    });
    let ask = || SessionCommand::QueryMailbox {
        source: MessageSource::Any,
        reply: ReplyId(8),
    };
    let (effects, _) = actor.handle_command(&mut tree, ask());
    assert!(matches!(
        &effects[0],
        Effect::Reply { to: ReplyId(8), reply: Reply::Message(Some(message)) }
            if message.content == "ping"
    ));
    let (effects, _) = actor.handle_command(&mut tree, ask());
    assert!(matches!(
        &effects[0],
        Effect::Reply {
            reply: Reply::Message(None),
            ..
        }
    ));
}

#[test]
fn a_summary_needs_a_text() {
    let reply = |reply: &str| {
        Ok(ModelReply::Text {
            text: reply.to_string(),
            usage: None,
        })
    };
    assert_eq!(summarize_history(reply("sum")).unwrap(), "sum");
    assert!(matches!(
        summarize_history(Ok(ModelReply::ToolCalls {
            text_before: None,
            calls: Vec::new(),
            usage: None
        })),
        Err(CoreError::LlmError { .. } | CoreError::Internal { .. })
    ));
    assert_eq!(
        generate_session_listing_summary(reply(" \"A session\" ")).unwrap(),
        Some("A session".to_string())
    );
}

#[test]
fn errors_have_texts() {
    assert_eq!(CoreError::SessionNotFound.text(), "session not found");
    let state = CoreError::InvalidState {
        expected: SessionState::Idle,
        actual: SessionState::Streaming,
    };
    assert!(state.text().contains("Idle") && state.text().contains("Streaming"));
    let unknown = CoreError::UnknownToolUseId {
        tool_use_id: "toolu_x".to_string(),
    };
    assert!(unknown.text().contains("toolu_x"));
    let failed = failure(FailedTask::ArchiveOldResults, "disk full");
    assert!(failed
        .text()
        .contains("failed to archive old tool results: disk full"));
}
