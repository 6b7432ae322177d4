//! What the core does with its inputs.

use quine_core::actor::SessionCommand;
use quine_core::channel::{CoreOutput, InteractionResponse, MessageSource, ReplyId, ToolOutcome};
use quine_core::context::{
    PermissionPromptBehavior, Session, SessionInit, SessionMemory, ToolBelt,
};
use quine_core::core_loop::{ChildDefaults, Core, CoreAction, CoreInput};
use quine_core::effect::Reply;
use quine_core::error::CoreError;
use quine_core::prompt::PromptMemoryMode;
use quine_core::session::{ExitStatus, SessionId, SessionSignal, SessionState};
use quine_core::session_tree::SessionTree;

const A: SessionId = SessionId(1);
const B: SessionId = SessionId(2);

fn init() -> SessionInit {
    SessionInit {
        system_prompt: None,
        skills: Vec::new(),
        working_directory: "/work".to_string(),
        plan_mode: false,
        prompt_behavior: PermissionPromptBehavior::Interactive,
        initial_messages: Vec::new(),
        max_context_window: Some(8000),
        prompt_memory_mode: PromptMemoryMode::Disabled,
        agent_key: None,
        team_key: None,
        model_profile: Some("fast".to_string()),
        session_group: None,
        auto_compact_threshold_percent: 60,
        status_report_min_tool_rounds: 3,
    }
}

fn session(id: SessionId) -> Session {
    Session::new(
        id,
        init(),
        &ToolBelt {
            observing: Vec::new(),
            acting: Vec::new(),
            web_configured: false,
        },
        &None,
        SessionMemory {
            enabled: false,
            refresh_in_flight: false,
            last_summarized_message_index: None,
            last_refresh_at: None,
            listing_summary: None,
        },
    )
}

fn defaults() -> ChildDefaults {
    ChildDefaults {
        working_directory: "/work".to_string(),
        max_context_window: Some(1000),
        auto_compact_threshold_percent: 60,
        status_report_min_tool_rounds: 3,
    }
}

/// A core that knows the session `A`.
fn with_one_session() -> (Core, SessionTree) {
    let mut engine = Core::new();
    let mut tree = SessionTree::new();
    engine.session_made(
        &mut tree,
        &session(A),
        None,
        None,
        String::new(),
        ReplyId(0),
    );
    (engine, tree)
}

#[test]
fn create_session_and_shutdown_baseline() {
    let mut engine = Core::new();
    let mut tree = SessionTree::new();
    let actions = engine.route(
        &mut tree,
        &defaults(),
        CoreInput::CreateSession {
            session_id: A,
            init: init(),
            reply: ReplyId(1),
        },
    );
    assert!(matches!(
        actions[0],
        CoreAction::Create { session_id: A, parent_id: None, task: None, .. }
    ));
    let actions = engine.session_made(
        &mut tree,
        &session(A),
        None,
        None,
        String::new(),
        ReplyId(1),
    );
    assert!(matches!(
        actions[0],
        CoreAction::Output(CoreOutput::SessionStateChanged {
            session_id: A,
            state: SessionState::Idle
        })
    ));
    assert!(matches!(actions[1], CoreAction::Checkpoint));
    assert!(matches!(
        actions[2],
        CoreAction::Reply { to: ReplyId(1), reply: Reply::Accepted }
    ));
    let actions = engine.route(&mut tree, &defaults(), CoreInput::Shutdown);
    assert!(matches!(
        actions[0],
        CoreAction::ToSession { session_id: A, command: SessionCommand::Shutdown }
    ));
    assert!(matches!(actions.last(), Some(CoreAction::Stop)));
}

#[test]
fn user_message_to_unknown_session_errors() {
    let engine = Core::new();
    let mut tree = SessionTree::new();
    let actions = engine.route(
        &mut tree,
        &defaults(),
        CoreInput::UserMessage {
            session_id: A,
            content: "hello".to_string(),
            turn_id: "t".to_string(),
        },
    );
    match &actions[0] {
        CoreAction::Output(CoreOutput::SessionError { error, .. }) => match error {
            CoreError::SessionNotFound => {}
            other => panic!("expected SessionNotFound, got {other:?}"),
        },
        other => panic!("expected SessionError, got {other:?}"),
    }
}

#[test]
fn duplicate_session_id_returns_error() {
    let (engine, mut tree) = with_one_session();
    let actions = engine.route(
        &mut tree,
        &defaults(),
        CoreInput::CreateSession {
            session_id: A,
            init: init(),
            reply: ReplyId(2),
        },
    );
    assert_eq!(actions.len(), 1);
    assert!(matches!(
        &actions[0],
        CoreAction::Reply { to: ReplyId(2), reply: Reply::Refused(why) }
            if why == "session already exists"
    ));
}

#[test]
fn a_spawned_session_inherits_from_its_parent() {
    let (mut engine, mut tree) = with_one_session();
    let actions = engine.route(
        &mut tree,
        &defaults(),
        CoreInput::SpawnSession {
            parent_id: A,
            child_id: B,
            task: "count".to_string(),
            system_prompt: None,
            prompt_behavior: PermissionPromptBehavior::Headless,
            reply: ReplyId(3),
        },
    );
    match &actions[0] {
        CoreAction::Create { session_id, parent_id, init, task, .. } => {
            assert_eq!(*session_id, B);
            assert_eq!(*parent_id, Some(A));
            assert_eq!(init.max_context_window, Some(8000));
            assert_eq!(init.model_profile.as_deref(), Some("fast"));
            assert_eq!(init.prompt_behavior, PermissionPromptBehavior::Headless);
            assert_eq!(task.as_deref(), Some("count"));
        }
        other => panic!("expected a new session, got {other:?}"),
    }
    let actions = engine.session_made(
        &mut tree,
        &session(B),
        Some(A),
        Some("count".to_string()),
        "turn".to_string(),
        ReplyId(3),
    );
    assert!(matches!(
        actions[0],
        CoreAction::Output(CoreOutput::ChildSpawned { parent_id: A, child_id: B })
    ));
    assert!(matches!(
        &actions[2],
        CoreAction::ToSession { session_id: B, command: SessionCommand::UserMessage { content, .. } }
            if content == "count"
    ));
    assert!(engine.knows(B));

    // An orphan has the defaults.
    let orphan = engine.child_session_init(
        SessionId(99),
        &defaults(),
        None,
        PermissionPromptBehavior::Headless,
    );
    assert_eq!(orphan.max_context_window, Some(1000));
    assert_eq!(orphan.model_profile, None);
}

#[test]
fn spawn_and_wait_child_complete_without_core_ack_deadlock() {
    let (mut engine, mut tree) = with_one_session();
    engine.session_made(
        &mut tree,
        &session(B),
        Some(A),
        Some("count".to_string()),
        "turn".to_string(),
        ReplyId(3),
    );
    let wait = |reply: u64, non_blocking: bool| CoreInput::WaitSession {
        parent_id: A,
        child_id: B,
        non_blocking,
        reply: ReplyId(reply),
    };
    let actions = engine.route(&mut tree, &defaults(), wait(4, true));
    assert!(matches!(
        actions[0],
        CoreAction::Reply { to: ReplyId(4), reply: Reply::Exit(None) }
    ));
    let actions = engine.route(&mut tree, &defaults(), wait(5, false));
    assert!(actions.is_empty());
    let actions = engine.child_finished(
        &mut tree,
        B,
        A,
        ExitStatus::Success {
            output: "3".to_string(),
        },
    );
    assert!(matches!(
        &actions[0],
        CoreAction::Reply { to: ReplyId(5), reply: Reply::Exit(Some(ExitStatus::Success { output })) }
            if output == "3"
    ));
    assert!(actions.iter().any(|action| matches!(
        action,
        CoreAction::ToSession { session_id: A, command: SessionCommand::ChildExited { child_id: B, .. } }
    )));
    assert!(!engine.knows(B));
    let actions = engine.route(&mut tree, &defaults(), wait(6, false));
    assert!(matches!(
        &actions[0],
        CoreAction::Reply { to: ReplyId(6), reply: Reply::Exit(Some(_)) }
    ));
}

#[test]
fn send_and_receive_mailbox_messages() {
    let (engine, mut tree) = with_one_session();
    let actions = engine.route(
        &mut tree,
        &defaults(),
        CoreInput::SendMessage {
            from: B,
            to: A,
            content: "hello".to_string(),
        },
    );
    assert!(matches!(
        &actions[0],
        CoreAction::ToSession { session_id: A, command: SessionCommand::MailboxMessage(message) }
            if message.from == B && message.content == "hello"
    ));
    assert!(matches!(
        actions[1],
        CoreAction::Output(CoreOutput::MessageReceived { session_id: A, from: B, .. })
    ));
    let actions = engine.route(
        &mut tree,
        &defaults(),
        CoreInput::RecvMessage {
            session_id: A,
            source: MessageSource::Any,
            reply: ReplyId(7),
        },
    );
    assert!(matches!(
        actions[0],
        CoreAction::ToSession {
            session_id: A,
            command: SessionCommand::QueryMailbox { reply: ReplyId(7), .. }
        }
    ));
    let actions = engine.route(
        &mut tree,
        &defaults(),
        CoreInput::RecvMessage {
            session_id: B,
            source: MessageSource::Any,
            reply: ReplyId(8),
        },
    );
    assert!(matches!(
        actions[0],
        CoreAction::Reply { to: ReplyId(8), reply: Reply::Message(None) }
    ));
}

#[test]
fn commands_for_unknown_sessions_are_refused_or_dropped() {
    let engine = Core::new();
    let mut tree = SessionTree::new();
    let mut route = |input| engine.route(&mut tree, &defaults(), input);
    assert!(matches!(
        &route(CoreInput::ExitPlanMode { session_id: A, reply: ReplyId(1) })[0],
        CoreAction::Reply { reply: Reply::Refused(why), .. } if why == "unknown session"
    ));
    assert!(matches!(
        &route(CoreInput::UpdateSessionLlm {
            session_id: A,
            model_profile: None,
            max_context_window: None,
            reply: ReplyId(1)
        })[0],
        CoreAction::Reply { reply: Reply::Refused(why), .. } if why == "unknown session"
    ));
    assert!(matches!(
        &route(CoreInput::CompactSession { session_id: A, reply: ReplyId(1) })[0],
        CoreAction::Reply { reply: Reply::Refused(why), .. } if why == "session not found"
    ));
    assert!(matches!(
        route(CoreInput::ToolResult {
            session_id: A,
            tool_use_id: "t".to_string(),
            result: ToolOutcome::Cancelled
        })[0],
        CoreAction::Output(CoreOutput::SessionError { .. })
    ));
    assert!(route(CoreInput::Cancel { session_id: A }).is_empty());
    assert!(route(CoreInput::Signal { session_id: A, signal: SessionSignal::Stop }).is_empty());
    assert!(route(CoreInput::InteractionResponse {
        session_id: A,
        response: InteractionResponse {
            response: String::new(),
            selected_indices: Vec::new()
        }
    })
    .is_empty());
    assert!(route(CoreInput::SendMessage { from: B, to: A, content: String::new() }).is_empty());
}

#[test]
fn requests_for_the_scheduler_are_passed_on() {
    let engine = Core::new();
    let mut tree = SessionTree::new();
    let mut route = |input| engine.route(&mut tree, &defaults(), input);
    assert!(matches!(
        route(CoreInput::ScheduleUserMessage {
            session_id: A,
            content: "later".to_string(),
            delay_ms: 5,
            cadence_ms: Some(6)
        })[0],
        CoreAction::Schedule { delay_ms: 5, cadence_ms: Some(6), .. }
    ));
    assert!(matches!(
        route(CoreInput::SendHarnessIpcMessage {
            target: "other".to_string(),
            content: "hi".to_string(),
            reply: ReplyId(1)
        })[0],
        CoreAction::SendIpc { reply: ReplyId(1), .. }
    ));
    assert!(matches!(
        route(CoreInput::RecvHarnessIpcMessage {
            source: "other".to_string(),
            non_blocking: true,
            reply: ReplyId(2)
        })[0],
        CoreAction::RecvIpc { reply: ReplyId(2), non_blocking: true, .. }
    ));
    assert!(matches!(
        route(CoreInput::RequestCheckpoint { reply: ReplyId(3) })[0],
        CoreAction::SnapshotAll { reply: ReplyId(3) }
    ));
    assert!(matches!(
        route(CoreInput::RequestSessionCheckpoint { session_id: A, reply: ReplyId(4) })[0],
        CoreAction::SnapshotOne { session_id: A, reply: ReplyId(4) }
    ));
}

#[test]
fn a_failed_creation_is_answered_with_its_reason() {
    let error = CoreError::Internal {
        message: "no disk".to_string(),
    };
    let actions = Core::creation_failed(None, &error, ReplyId(1));
    assert!(matches!(
        &actions[0],
        CoreAction::Reply { reply: Reply::Refused(why), .. }
            if why == "failed to create session: internal error: no disk"
    ));
    let actions = Core::creation_failed(Some(A), &error, ReplyId(1));
    assert!(matches!(
        &actions[0],
        CoreAction::Reply { reply: Reply::Refused(why), .. } if why == "internal error: no disk"
    ));
}

#[test]
fn a_restored_session_is_announced_once() {
    let mut engine = Core::new();
    let mut waiting = session(A);
    waiting.state = SessionState::Waiting;
    let actions = engine.session_restored(&waiting);
    assert!(matches!(
        actions[0],
        CoreAction::Output(CoreOutput::SessionStateChanged {
            session_id: A,
            state: SessionState::Waiting
        })
    ));
    assert!(engine.session_restored(&waiting).is_empty());
}
