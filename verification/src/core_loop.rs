//! What the core does with what reaches it: it makes sessions, and hands everything else to
//! the session that it is for.

use vstd::prelude::*;
use vstd::string::*;

use crate::actor::{SessionCommand, SessionCommandView};
use crate::channel::{
    CoreOutput, CoreOutputView, InteractionResponse, InteractionResponseView, MailboxMessage,
    MailboxMessageView, MessageSource, ReplyId, ToolOutcome, ToolOutcomeView,
};
use crate::context::{
    PermissionPromptBehavior, Session, SessionInit, SessionInitView, SessionView, SkillView,
};
use crate::effect::{Reply, ReplyView};
use crate::error::{CoreError, CoreErrorView};
use crate::message::MessageView;
use crate::prompt::PromptMemoryMode;
use crate::session::{ExitStatus, ExitStatusView, SessionId, SessionSignal, SessionState};
use crate::session_tree::{waiting_for, SessionTree, SessionTreeView};
use crate::table::{entry, position_of, put, take_out, updated, without};

verus! {

broadcast use vstd::seq::group_seq_axioms;

/// An operation that the harness, or a session, asks of the core.
#[allow(inconsistent_fields)]
#[derive(Debug)]
pub enum CoreInput {
    /// Start a session.
    CreateSession { session_id: SessionId, init: SessionInit, reply: ReplyId },
    /// A message of the user.
    UserMessage { session_id: SessionId, content: String, turn_id: String },
    /// Leave plan mode.
    ExitPlanMode { session_id: SessionId, reply: ReplyId },
    /// Change to another model.
    UpdateSessionLlm {
        session_id: SessionId,
        model_profile: Option<String>,
        max_context_window: Option<u64>,
        reply: ReplyId,
    },
    /// A message of the user for later.
    ScheduleUserMessage {
        session_id: SessionId,
        content: String,
        delay_ms: u64,
        cadence_ms: Option<u64>,
    },
    /// Compact the history.
    CompactSession { session_id: SessionId, reply: ReplyId },
    /// The result of a tool.
    ToolResult { session_id: SessionId, tool_use_id: String, result: ToolOutcome },
    /// An answer of the user.
    InteractionResponse { session_id: SessionId, response: InteractionResponse },
    /// Stop what the session does.
    Cancel { session_id: SessionId },
    /// Start a session under another.
    SpawnSession {
        parent_id: SessionId,
        child_id: SessionId,
        task: String,
        system_prompt: Option<String>,
        prompt_behavior: PermissionPromptBehavior,
        reply: ReplyId,
    },
    /// A signal to a session.
    Signal { session_id: SessionId, signal: SessionSignal },
    /// Wait for the end of a child.
    WaitSession { parent_id: SessionId, child_id: SessionId, non_blocking: bool, reply: ReplyId },
    /// A message between sessions.
    SendMessage { from: SessionId, to: SessionId, content: String },
    /// Receive a message.
    RecvMessage { session_id: SessionId, source: MessageSource, reply: ReplyId },
    /// A message between harnesses.
    SendHarnessIpcMessage { target: String, content: String, reply: ReplyId },
    /// Receive a message between harnesses.
    RecvHarnessIpcMessage { source: String, non_blocking: bool, reply: ReplyId },
    /// Ask what has to be saved.
    RequestCheckpoint { reply: ReplyId },
    /// Ask what has to be saved of one session.
    RequestSessionCheckpoint { session_id: SessionId, reply: ReplyId },
    /// The summary of a session was refreshed.
    SessionMemoryRefreshFinished {
        session_id: SessionId,
        last_summarized_message_index: Option<usize>,
        refreshed_at: Option<String>,
        listing_summary: Option<String>,
    },
    /// End the core.
    Shutdown,
}

/// The model of [`CoreInput`].
#[allow(inconsistent_fields)]
#[verifier::ext_equal]
pub enum CoreInputView {
    CreateSession { session_id: SessionId, init: SessionInitView, reply: ReplyId },
    UserMessage { session_id: SessionId, content: Seq<char>, turn_id: Seq<char> },
    ExitPlanMode { session_id: SessionId, reply: ReplyId },
    UpdateSessionLlm {
        session_id: SessionId,
        model_profile: Option<Seq<char>>,
        max_context_window: Option<u64>,
        reply: ReplyId,
    },
    ScheduleUserMessage {
        session_id: SessionId,
        content: Seq<char>,
        delay_ms: u64,
        cadence_ms: Option<u64>,
    },
    CompactSession { session_id: SessionId, reply: ReplyId },
    ToolResult { session_id: SessionId, tool_use_id: Seq<char>, result: ToolOutcomeView },
    InteractionResponse { session_id: SessionId, response: InteractionResponseView },
    Cancel { session_id: SessionId },
    SpawnSession {
        parent_id: SessionId,
        child_id: SessionId,
        task: Seq<char>,
        system_prompt: Option<Seq<char>>,
        prompt_behavior: PermissionPromptBehavior,
        reply: ReplyId,
    },
    Signal { session_id: SessionId, signal: SessionSignal },
    WaitSession { parent_id: SessionId, child_id: SessionId, non_blocking: bool, reply: ReplyId },
    SendMessage { from: SessionId, to: SessionId, content: Seq<char> },
    RecvMessage { session_id: SessionId, source: MessageSource, reply: ReplyId },
    SendHarnessIpcMessage { target: Seq<char>, content: Seq<char>, reply: ReplyId },
    RecvHarnessIpcMessage { source: Seq<char>, non_blocking: bool, reply: ReplyId },
    RequestCheckpoint { reply: ReplyId },
    RequestSessionCheckpoint { session_id: SessionId, reply: ReplyId },
    SessionMemoryRefreshFinished {
        session_id: SessionId,
        last_summarized_message_index: Option<usize>,
        refreshed_at: Option<Seq<char>>,
        listing_summary: Option<Seq<char>>,
    },
    Shutdown,
}

impl DeepView for CoreInput {
    type V = CoreInputView;

    open spec fn deep_view(&self) -> CoreInputView {
        match *self {
            CoreInput::CreateSession { session_id, init, reply } => CoreInputView::CreateSession {
                session_id,
                init: init.deep_view(),
                reply,
            },
            CoreInput::UserMessage { session_id, content, turn_id } => CoreInputView::UserMessage {
                session_id,
                content: content.deep_view(),
                turn_id: turn_id.deep_view(),
            },
            CoreInput::ExitPlanMode { session_id, reply } => CoreInputView::ExitPlanMode {
                session_id,
                reply,
            },
            CoreInput::UpdateSessionLlm {
                session_id,
                model_profile,
                max_context_window,
                reply,
            } => CoreInputView::UpdateSessionLlm {
                session_id,
                model_profile: model_profile.deep_view(),
                max_context_window,
                reply,
            },
            CoreInput::ScheduleUserMessage {
                session_id,
                content,
                delay_ms,
                cadence_ms,
            } => CoreInputView::ScheduleUserMessage {
                session_id,
                content: content.deep_view(),
                delay_ms,
                cadence_ms,
            },
            CoreInput::CompactSession { session_id, reply } => CoreInputView::CompactSession {
                session_id,
                reply,
            },
            CoreInput::ToolResult { session_id, tool_use_id, result } => CoreInputView::ToolResult {
                session_id,
                tool_use_id: tool_use_id.deep_view(),
                result: result.deep_view(),
            },
            CoreInput::InteractionResponse {
                session_id,
                response,
            } => CoreInputView::InteractionResponse {
                session_id,
                response: response.deep_view(),
            },
            CoreInput::Cancel { session_id } => CoreInputView::Cancel { session_id },
            CoreInput::SpawnSession {
                parent_id,
                child_id,
                task,
                system_prompt,
                prompt_behavior,
                reply,
            } => CoreInputView::SpawnSession {
                parent_id,
                child_id,
                task: task.deep_view(),
                system_prompt: system_prompt.deep_view(),
                prompt_behavior,
                reply,
            },
            CoreInput::Signal { session_id, signal } => CoreInputView::Signal {
                session_id,
                signal,
            },
            CoreInput::WaitSession {
                parent_id,
                child_id,
                non_blocking,
                reply,
            } => CoreInputView::WaitSession {
                parent_id,
                child_id,
                non_blocking,
                reply,
            },
            CoreInput::SendMessage { from, to, content } => CoreInputView::SendMessage {
                from,
                to,
                content: content.deep_view(),
            },
            CoreInput::RecvMessage { session_id, source, reply } => CoreInputView::RecvMessage {
                session_id,
                source,
                reply,
            },
            CoreInput::SendHarnessIpcMessage {
                target,
                content,
                reply,
            } => CoreInputView::SendHarnessIpcMessage {
                target: target.deep_view(),
                content: content.deep_view(),
                reply,
            },
            CoreInput::RecvHarnessIpcMessage {
                source,
                non_blocking,
                reply,
            } => CoreInputView::RecvHarnessIpcMessage {
                source: source.deep_view(),
                non_blocking,
                reply,
            },
            CoreInput::RequestCheckpoint { reply } => CoreInputView::RequestCheckpoint { reply },
            CoreInput::RequestSessionCheckpoint {
                session_id,
                reply,
            } => CoreInputView::RequestSessionCheckpoint {
                session_id,
                reply,
            },
            CoreInput::SessionMemoryRefreshFinished {
                session_id,
                last_summarized_message_index,
                refreshed_at,
                listing_summary,
            } => CoreInputView::SessionMemoryRefreshFinished {
                session_id,
                last_summarized_message_index,
                refreshed_at: refreshed_at.deep_view(),
                listing_summary: listing_summary.deep_view(),
            },
            CoreInput::Shutdown => CoreInputView::Shutdown,
        }
    }
}

/// What the host of the core has to do.
#[allow(inconsistent_fields)]
#[derive(Debug)]
pub enum CoreAction {
    /// Hand a command to a session.
    ToSession { session_id: SessionId, command: SessionCommand },
    /// Send an event to the harness.
    Output(CoreOutput),
    /// Answer a request.
    Reply { to: ReplyId, reply: Reply },
    /// Make a session.
    Create {
        session_id: SessionId,
        parent_id: Option<SessionId>,
        init: SessionInit,
        task: Option<String>,
        reply: ReplyId,
    },
    /// Hand a user message to the scheduler.
    Schedule { session_id: SessionId, content: String, delay_ms: u64, cadence_ms: Option<u64> },
    /// Hand a message to the scheduler.
    SendIpc { target: String, content: String, reply: ReplyId },
    /// Ask the scheduler for a message.
    RecvIpc { source: String, non_blocking: bool, reply: ReplyId },
    /// Answer with what has to be saved.
    SnapshotAll { reply: ReplyId },
    /// Answer with what has to be saved of one session.
    SnapshotOne { session_id: SessionId, reply: ReplyId },
    /// Send what has to be saved to the harness.
    Checkpoint,
    /// End the core.
    Stop,
}

/// The model of [`CoreAction`].
#[allow(inconsistent_fields)]
#[verifier::ext_equal]
pub enum CoreActionView {
    ToSession { session_id: SessionId, command: SessionCommandView },
    Output(CoreOutputView),
    Reply { to: ReplyId, reply: ReplyView },
    Create {
        session_id: SessionId,
        parent_id: Option<SessionId>,
        init: SessionInitView,
        task: Option<Seq<char>>,
        reply: ReplyId,
    },
    Schedule { session_id: SessionId, content: Seq<char>, delay_ms: u64, cadence_ms: Option<u64> },
    SendIpc { target: Seq<char>, content: Seq<char>, reply: ReplyId },
    RecvIpc { source: Seq<char>, non_blocking: bool, reply: ReplyId },
    SnapshotAll { reply: ReplyId },
    SnapshotOne { session_id: SessionId, reply: ReplyId },
    Checkpoint,
    Stop,
}

impl DeepView for CoreAction {
    type V = CoreActionView;

    open spec fn deep_view(&self) -> CoreActionView {
        match *self {
            CoreAction::ToSession { session_id, command } => CoreActionView::ToSession {
                session_id,
                command: command.deep_view(),
            },
            CoreAction::Output(value) => CoreActionView::Output(value.deep_view()),
            CoreAction::Reply { to, reply } => CoreActionView::Reply {
                to,
                reply: reply.deep_view(),
            },
            CoreAction::Create {
                session_id,
                parent_id,
                init,
                task,
                reply,
            } => CoreActionView::Create {
                session_id,
                parent_id,
                init: init.deep_view(),
                task: task.deep_view(),
                reply,
            },
            CoreAction::Schedule {
                session_id,
                content,
                delay_ms,
                cadence_ms,
            } => CoreActionView::Schedule {
                session_id,
                content: content.deep_view(),
                delay_ms,
                cadence_ms,
            },
            CoreAction::SendIpc { target, content, reply } => CoreActionView::SendIpc {
                target: target.deep_view(),
                content: content.deep_view(),
                reply,
            },
            CoreAction::RecvIpc { source, non_blocking, reply } => CoreActionView::RecvIpc {
                source: source.deep_view(),
                non_blocking,
                reply,
            },
            CoreAction::SnapshotAll { reply } => CoreActionView::SnapshotAll { reply },
            CoreAction::SnapshotOne { session_id, reply } => CoreActionView::SnapshotOne {
                session_id,
                reply,
            },
            CoreAction::Checkpoint => CoreActionView::Checkpoint,
            CoreAction::Stop => CoreActionView::Stop,
        }
    }
}

/// What the core knows of a session.
#[derive(Debug)]
pub struct SessionHandle {
    pub max_context_window: Option<u64>,
    pub model_profile: Option<String>,
    pub session_group: Option<String>,
}

/// The model of [`SessionHandle`].
#[verifier::ext_equal]
pub struct SessionHandleView {
    pub max_context_window: Option<u64>,
    pub model_profile: Option<Seq<char>>,
    pub session_group: Option<Seq<char>>,
}

impl DeepView for SessionHandle {
    type V = SessionHandleView;

    open spec fn deep_view(&self) -> SessionHandleView {
        SessionHandleView {
            max_context_window: self.max_context_window,
            model_profile: self.model_profile.deep_view(),
            session_group: self.session_group.deep_view(),
        }
    }
}

impl Clone for SessionHandle {
    fn clone(&self) -> (r: Self)
        ensures
            r.deep_view() == self.deep_view(),
    {
        let r = SessionHandle {
            max_context_window: self.max_context_window,
            model_profile: self.model_profile.clone(),
            session_group: self.session_group.clone(),
        };
        assert(r.model_profile.deep_view() =~= self.model_profile.deep_view());
        assert(r.session_group.deep_view() =~= self.session_group.deep_view());
        r
    }
}

/// What a session is made with that another session makes.
#[derive(Debug)]
pub struct ChildDefaults {
    pub working_directory: String,
    pub max_context_window: Option<u64>,
    pub auto_compact_threshold_percent: u8,
    pub status_report_min_tool_rounds: u32,
}

/// The model of [`ChildDefaults`].
#[verifier::ext_equal]
pub struct ChildDefaultsView {
    pub working_directory: Seq<char>,
    pub max_context_window: Option<u64>,
    pub auto_compact_threshold_percent: u8,
    pub status_report_min_tool_rounds: u32,
}

impl DeepView for ChildDefaults {
    type V = ChildDefaultsView;

    open spec fn deep_view(&self) -> ChildDefaultsView {
        ChildDefaultsView {
            working_directory: self.working_directory.deep_view(),
            max_context_window: self.max_context_window,
            auto_compact_threshold_percent: self.auto_compact_threshold_percent,
            status_report_min_tool_rounds: self.status_report_min_tool_rounds,
        }
    }
}

/// The sessions that the core knows.
#[derive(Debug)]
pub struct Core {
    pub handles: Vec<(SessionId, SessionHandle)>,
}

/// The model of [`Core`].
#[verifier::ext_equal]
pub struct CoreView {
    pub handles: Seq<(SessionId, SessionHandleView)>,
}

impl DeepView for Core {
    type V = CoreView;

    open spec fn deep_view(&self) -> CoreView {
        CoreView {
            handles: self.handles.deep_view(),
        }
    }
}

/// Whether the core knows a session.
pub open spec fn known(core: CoreView, id: SessionId) -> bool {
    entry(core.handles, id) is Some
}

/// A command for a session.
pub open spec fn to_session(session_id: SessionId, command: SessionCommandView) -> Seq<
    CoreActionView,
> {
    seq![CoreActionView::ToSession { session_id, command }]
}

/// An answer to a request.
pub open spec fn answer(to: ReplyId, reply: ReplyView) -> Seq<CoreActionView> {
    seq![CoreActionView::Reply { to, reply }]
}

/// The error for a session that the core does not know.
pub open spec fn not_found(session_id: SessionId) -> Seq<CoreActionView> {
    seq![
        CoreActionView::Output(
            CoreOutputView::SessionError { session_id, error: CoreErrorView::SessionNotFound },
        ),
    ]
}

/// What a session is made from that another makes. It has the model and the group of its
/// parent, and the window of its parent if that is known.
pub open spec fn child_init(
    parent: Option<SessionHandleView>,
    defaults: ChildDefaultsView,
    system_prompt: Option<Seq<char>>,
    prompt_behavior: PermissionPromptBehavior,
) -> SessionInitView {
    SessionInitView {
        system_prompt,
        skills: Seq::<SkillView>::empty(),
        working_directory: defaults.working_directory,
        plan_mode: false,
        prompt_behavior,
        initial_messages: Seq::<MessageView>::empty(),
        max_context_window: match parent {
            Some(handle) => if handle.max_context_window is Some {
                handle.max_context_window
            } else {
                defaults.max_context_window
            },
            None => defaults.max_context_window,
        },
        prompt_memory_mode: PromptMemoryMode::Disabled,
        agent_key: None,
        team_key: None,
        model_profile: match parent {
            Some(handle) => handle.model_profile,
            None => None,
        },
        session_group: match parent {
            Some(handle) => handle.session_group,
            None => None,
        },
        auto_compact_threshold_percent: defaults.auto_compact_threshold_percent,
        status_report_min_tool_rounds: defaults.status_report_min_tool_rounds,
    }
}

/// Commands for all sessions that the core knows.
pub open spec fn to_all(
    handles: Seq<(SessionId, SessionHandleView)>,
    command: SessionCommandView,
) -> Seq<CoreActionView> {
    handles.map_values(
        |h: (SessionId, SessionHandleView)| CoreActionView::ToSession { session_id: h.0, command },
    )
}

/// Waiting for the end of a child: the tree, and what is done. A session that is no child
/// can be waited for too, and is then answered when it ends.
pub open spec fn wait_routed(
    tree: SessionTreeView,
    parent_id: SessionId,
    child_id: SessionId,
    non_blocking: bool,
    reply: ReplyId,
) -> (SessionTreeView, Seq<CoreActionView>) {
    let exit = entry(tree.exits, child_id);
    if entry(tree.parents, child_id) == Some(parent_id) && exit is Some {
        (tree, answer(reply, ReplyView::Exit(exit)))
    } else if non_blocking {
        (tree, answer(reply, ReplyView::Exit(None)))
    } else if exit is Some {
        (tree, answer(reply, ReplyView::Exit(exit)))
    } else {
        (
            SessionTreeView { waiters: tree.waiters.push((child_id, reply)), ..tree },
            Seq::empty(),
        )
    }
}

/// What an input does: the tree of sessions, and what the host has to do.
pub open spec fn routed(
    core: CoreView,
    tree: SessionTreeView,
    defaults: ChildDefaultsView,
    input: CoreInputView,
) -> (SessionTreeView, Seq<CoreActionView>) {
    match input {
        CoreInputView::WaitSession { parent_id, child_id, non_blocking, reply } => wait_routed(
            tree,
            parent_id,
            child_id,
            non_blocking,
            reply,
        ),
        _ => (tree, actions_for(core, defaults, input)),
    }
}

/// What the host has to do for an input that does not concern the tree.
pub open spec fn actions_for(
    core: CoreView,
    defaults: ChildDefaultsView,
    input: CoreInputView,
) -> Seq<CoreActionView> {
    match input {
        CoreInputView::CreateSession { session_id, init, reply } => if known(core, session_id) {
            answer(reply, ReplyView::Refused("session already exists"@))
        } else {
            seq![
                CoreActionView::Create { session_id, parent_id: None, init, task: None, reply },
            ]
        },
        CoreInputView::SpawnSession {
            parent_id,
            child_id,
            task,
            system_prompt,
            prompt_behavior,
            reply,
        } => if known(core, child_id) {
            answer(reply, ReplyView::Refused("session already exists"@))
        } else {
            seq![
                CoreActionView::Create {
                    session_id: child_id,
                    parent_id: Some(parent_id),
                    init: child_init(
                        entry(core.handles, parent_id),
                        defaults,
                        system_prompt,
                        prompt_behavior,
                    ),
                    task: Some(task),
                    reply,
                },
            ]
        },
        CoreInputView::UserMessage { session_id, content, turn_id } => if known(core, session_id) {
            to_session(session_id, SessionCommandView::UserMessage { content, turn_id })
        } else {
            not_found(session_id)
        },
        CoreInputView::ToolResult { session_id, tool_use_id, result } => if known(
            core,
            session_id,
        ) {
            to_session(session_id, SessionCommandView::ToolResult { tool_use_id, result })
        } else {
            not_found(session_id)
        },
        CoreInputView::ExitPlanMode { session_id, reply } => if known(core, session_id) {
            to_session(session_id, SessionCommandView::ExitPlanMode { reply })
        } else {
            answer(reply, ReplyView::Refused("unknown session"@))
        },
        CoreInputView::UpdateSessionLlm {
            session_id,
            model_profile,
            max_context_window,
            reply,
        } => if known(core, session_id) {
            to_session(
                session_id,
                SessionCommandView::UpdateSessionLlm { model_profile, max_context_window, reply },
            )
        } else {
            answer(reply, ReplyView::Refused("unknown session"@))
        },
        CoreInputView::CompactSession { session_id, reply } => if known(core, session_id) {
            to_session(session_id, SessionCommandView::CompactSession { reply })
        } else {
            answer(reply, ReplyView::Refused("session not found"@))
        },
        CoreInputView::InteractionResponse { session_id, response } => if known(
            core,
            session_id,
        ) {
            to_session(session_id, SessionCommandView::InteractionResponse(response))
        } else {
            Seq::empty()
        },
        CoreInputView::Cancel { session_id } => if known(core, session_id) {
            to_session(session_id, SessionCommandView::Cancel)
        } else {
            Seq::empty()
        },
        CoreInputView::Signal { session_id, signal } => if known(core, session_id) {
            to_session(session_id, SessionCommandView::Signal(signal))
        } else {
            Seq::empty()
        },
        CoreInputView::SessionMemoryRefreshFinished {
            session_id,
            last_summarized_message_index,
            refreshed_at,
            listing_summary,
        } => if known(core, session_id) {
            to_session(
                session_id,
                SessionCommandView::SessionMemoryRefreshFinished {
                    last_summarized_message_index,
                    refreshed_at,
                    listing_summary,
                },
            )
        } else {
            Seq::empty()
        },
        CoreInputView::SendMessage { from, to, content } => if known(core, to) {
            to_session(
                to,
                SessionCommandView::MailboxMessage(MailboxMessageView { from, content }),
            ).push(
                CoreActionView::Output(
                    CoreOutputView::MessageReceived { session_id: to, from, content },
                ),
            )
        } else {
            Seq::empty()
        },
        CoreInputView::RecvMessage { session_id, source, reply } => if known(core, session_id) {
            to_session(session_id, SessionCommandView::QueryMailbox { source, reply })
        } else {
            answer(reply, ReplyView::Message(None))
        },
        CoreInputView::ScheduleUserMessage { session_id, content, delay_ms, cadence_ms } => seq![
            CoreActionView::Schedule { session_id, content, delay_ms, cadence_ms },
        ],
        CoreInputView::SendHarnessIpcMessage { target, content, reply } => seq![
            CoreActionView::SendIpc { target, content, reply },
        ],
        CoreInputView::RecvHarnessIpcMessage { source, non_blocking, reply } => seq![
            CoreActionView::RecvIpc { source, non_blocking, reply },
        ],
        CoreInputView::RequestCheckpoint { reply } => seq![CoreActionView::SnapshotAll { reply }],
        CoreInputView::RequestSessionCheckpoint { session_id, reply } => seq![
            CoreActionView::SnapshotOne { session_id, reply },
        ],
        CoreInputView::Shutdown => to_all(core.handles, SessionCommandView::Shutdown).push(
            CoreActionView::Stop,
        ),
        CoreInputView::WaitSession { .. } => Seq::empty(),
    }
}

/// Where the answer to an input goes.
pub open spec fn reply_of_input(input: CoreInputView) -> Option<ReplyId> {
    match input {
        CoreInputView::CreateSession { reply, .. } => Some(reply),
        CoreInputView::ExitPlanMode { reply, .. } => Some(reply),
        CoreInputView::UpdateSessionLlm { reply, .. } => Some(reply),
        CoreInputView::CompactSession { reply, .. } => Some(reply),
        CoreInputView::SpawnSession { reply, .. } => Some(reply),
        CoreInputView::WaitSession { reply, .. } => Some(reply),
        CoreInputView::RecvMessage { reply, .. } => Some(reply),
        CoreInputView::SendHarnessIpcMessage { reply, .. } => Some(reply),
        CoreInputView::RecvHarnessIpcMessage { reply, .. } => Some(reply),
        CoreInputView::RequestCheckpoint { reply } => Some(reply),
        CoreInputView::RequestSessionCheckpoint { reply, .. } => Some(reply),
        _ => None,
    }
}

/// Where the answer goes that a command asks for.
pub open spec fn reply_of_command(command: SessionCommandView) -> Option<ReplyId> {
    match command {
        SessionCommandView::ExitPlanMode { reply } => Some(reply),
        SessionCommandView::UpdateSessionLlm { reply, .. } => Some(reply),
        SessionCommandView::CompactSession { reply } => Some(reply),
        SessionCommandView::Snapshot { reply } => Some(reply),
        SessionCommandView::QueryMailbox { reply, .. } => Some(reply),
        _ => None,
    }
}

/// Where the answer goes that an action gives, or that it leaves to another.
pub open spec fn reply_of_action(action: CoreActionView) -> Option<ReplyId> {
    match action {
        CoreActionView::ToSession { command, .. } => reply_of_command(command),
        CoreActionView::Reply { to, .. } => Some(to),
        CoreActionView::Create { reply, .. } => Some(reply),
        CoreActionView::SendIpc { reply, .. } => Some(reply),
        CoreActionView::RecvIpc { reply, .. } => Some(reply),
        CoreActionView::SnapshotAll { reply } => Some(reply),
        CoreActionView::SnapshotOne { reply, .. } => Some(reply),
        _ => None,
    }
}

/// The answers that actions give, or leave to others.
pub open spec fn replies_of(actions: Seq<CoreActionView>) -> Seq<ReplyId>
    decreases actions.len(),
{
    if actions.len() == 0 {
        Seq::empty()
    } else {
        match reply_of_action(actions.last()) {
            Some(reply) => replies_of(actions.drop_last()).push(reply),
            None => replies_of(actions.drop_last()),
        }
    }
}

proof fn lemma_no_replies(actions: Seq<CoreActionView>)
    requires
        forall|i: int| 0 <= i < actions.len() ==> reply_of_action(#[trigger] actions[i]) is None,
    ensures
        replies_of(actions) == Seq::<ReplyId>::empty(),
    decreases actions.len(),
{
    if actions.len() > 0 {
        let front = actions.drop_last();
        assert forall|i: int| 0 <= i < front.len() implies reply_of_action(
            #[trigger] front[i],
        ) is None by {
            assert(front[i] == actions[i]);
        }
        lemma_no_replies(front);
        assert(actions[actions.len() - 1] == actions.last());
    }
}

proof fn lemma_one_reply(action: CoreActionView)
    ensures
        replies_of(seq![action]) == (match reply_of_action(action) {
            Some(reply) => seq![reply],
            None => Seq::empty(),
        }),
{
    assert(seq![action].drop_last() =~= Seq::empty());
    assert(replies_of(Seq::empty()) == Seq::<ReplyId>::empty());
    if let Some(reply) = reply_of_action(action) {
        assert(Seq::<ReplyId>::empty().push(reply) =~= seq![reply]);
    }
}

/// Every request is answered once: at once, by the one that it is handed to, or when the
/// session ends that it waits for. What asks for no answer gets none.
pub proof fn law_each_request_is_answered_once(
    core: CoreView,
    tree: SessionTreeView,
    defaults: ChildDefaultsView,
    input: CoreInputView,
)
    ensures
        ({
            let (after, actions) = routed(core, tree, defaults, input);
            match reply_of_input(input) {
                None => replies_of(actions).len() == 0 && after == tree,
                Some(reply) => {
                    ||| replies_of(actions) == seq![reply] && after == tree
                    ||| replies_of(actions).len() == 0 && input is WaitSession && after.waiters
                        == tree.waiters.push((input->WaitSession_child_id, reply))
                },
            }
        }),
{
    let (after, actions) = routed(core, tree, defaults, input);
    assert(replies_of(Seq::empty()) == Seq::<ReplyId>::empty());
    match input {
        CoreInputView::Shutdown => {
            let all = to_all(core.handles, SessionCommandView::Shutdown);
            lemma_no_replies(all.push(CoreActionView::Stop));
        },
        CoreInputView::SendMessage { .. } => {
            lemma_no_replies(actions);
        },
        _ => {
            if actions.len() == 1 {
                assert(actions =~= seq![actions[0]]);
                lemma_one_reply(actions[0]);
            } else {
                assert(actions =~= Seq::empty());
            }
        },
    }
}

/// A command goes only to a session that the core knows.
pub proof fn law_commands_go_to_known_sessions(
    core: CoreView,
    tree: SessionTreeView,
    defaults: ChildDefaultsView,
    input: CoreInputView,
    i: int,
)
    requires
        0 <= i < routed(core, tree, defaults, input).1.len(),
    ensures
        routed(core, tree, defaults, input).1[i] matches CoreActionView::ToSession {
            session_id,
            ..
        } ==> known(core, session_id),
{
    let actions = routed(core, tree, defaults, input).1;
    if input is Shutdown {
        if i < core.handles.len() {
            lemma_listed(core.handles, i);
        }
    }
}

proof fn lemma_listed(handles: Seq<(SessionId, SessionHandleView)>, i: int)
    requires
        0 <= i < handles.len(),
    ensures
        entry(handles, handles[i].0) is Some,
    decreases handles.len(),
{
    if handles[0].0 != handles[i].0 {
        assert(handles.drop_first()[i - 1] == handles[i]);
        lemma_listed(handles.drop_first(), i - 1);
    }
}

/// What the core knows of a session.
pub open spec fn handle_of(session: SessionView) -> SessionHandleView {
    SessionHandleView {
        max_context_window: session.max_context_window,
        model_profile: session.config.model_profile,
        session_group: session.config.session_group,
    }
}

/// A session was made: the core, the tree of sessions, and what the host has to do. A child
/// is given its task.
pub open spec fn made(
    core: CoreView,
    tree: SessionTreeView,
    session: SessionView,
    parent_id: Option<SessionId>,
    task: Option<Seq<char>>,
    turn_id: Seq<char>,
    reply: ReplyId,
) -> (CoreView, SessionTreeView, Seq<CoreActionView>) {
    let grown = match parent_id {
        Some(parent) => SessionTreeView {
            parents: updated(tree.parents, session.id, parent),
            ..tree
        },
        None => tree,
    };
    let idle = CoreActionView::Output(
        CoreOutputView::SessionStateChanged {
            session_id: session.id,
            state: SessionState::Idle,
        },
    );
    if known(core, session.id) {
        (core, grown, answer(reply, ReplyView::Refused("session already exists"@)))
    } else {
        (
            CoreView { handles: updated(core.handles, session.id, handle_of(session)) },
            grown,
            (match parent_id {
                Some(parent) => seq![
                    CoreActionView::Output(
                        CoreOutputView::ChildSpawned { parent_id: parent, child_id: session.id },
                    ),
                    idle,
                ],
                None => seq![idle],
            }) + (match task {
                Some(content) => to_session(
                    session.id,
                    SessionCommandView::UserMessage { content, turn_id },
                ),
                None => Seq::empty(),
            }) + seq![
                CoreActionView::Checkpoint,
                CoreActionView::Reply { to: reply, reply: ReplyView::Accepted },
            ],
        )
    }
}

/// A session was brought back: the core, and what the host has to do.
pub open spec fn brought_back(core: CoreView, session: SessionView) -> (
    CoreView,
    Seq<CoreActionView>,
) {
    if known(core, session.id) {
        (core, Seq::empty())
    } else {
        (
            CoreView { handles: updated(core.handles, session.id, handle_of(session)) },
            seq![
                CoreActionView::Output(
                    CoreOutputView::SessionStateChanged {
                        session_id: session.id,
                        state: session.state,
                    },
                ),
            ],
        )
    }
}

/// Answers that tell how a session ended.
pub open spec fn exit_answers(replies: Seq<ReplyId>, status: ExitStatusView) -> Seq<
    CoreActionView,
> {
    replies.map_values(
        |r: ReplyId| CoreActionView::Reply { to: r, reply: ReplyView::Exit(Some(status)) },
    )
}

/// A child has ended: the core, the tree of sessions, and what the host has to do. Those who
/// wait for it are answered, and all sessions are told.
pub open spec fn child_gone(
    core: CoreView,
    tree: SessionTreeView,
    session_id: SessionId,
    parent_id: SessionId,
    status: ExitStatusView,
) -> (CoreView, SessionTreeView, Seq<CoreActionView>) {
    let left = without(core.handles, session_id);
    (
        CoreView { handles: left },
        SessionTreeView {
            exits: updated(tree.exits, session_id, status),
            waiters: without(tree.waiters, session_id),
            ..tree
        },
        exit_answers(waiting_for(tree.waiters, session_id), status) + seq![
            CoreActionView::Output(
                CoreOutputView::SessionStateChanged {
                    session_id,
                    state: SessionState::Destroyed,
                },
            ),
            CoreActionView::Output(
                CoreOutputView::ChildExited { parent_id, child_id: session_id, status },
            ),
        ] + to_all(left, SessionCommandView::ChildExited { child_id: session_id, status }) + seq![
            CoreActionView::Checkpoint,
        ],
    )
}

/// A session that was made is known and the others are as before; one that has ended is not
/// known, its end is on record, and nobody is left waiting for it.
pub proof fn law_sessions_come_and_go(
    core: CoreView,
    tree: SessionTreeView,
    session: SessionView,
    parent_id: SessionId,
    task: Option<Seq<char>>,
    turn_id: Seq<char>,
    reply: ReplyId,
    status: ExitStatusView,
    other: SessionId,
)
    ensures
        ({
            let born = made(core, tree, session, Some(parent_id), task, turn_id, reply);
            &&& known(born.0, session.id)
            &&& other != session.id ==> known(born.0, other) == known(core, other)
            &&& entry(born.1.parents, session.id) == Some(parent_id)
        }),
        ({
            let gone = child_gone(core, tree, session.id, parent_id, status);
            &&& !known(gone.0, session.id)
            &&& other != session.id ==> known(gone.0, other) == known(core, other)
            &&& entry(gone.1.exits, session.id) == Some(status)
            &&& entry(gone.1.waiters, session.id) is None
        }),
{
    crate::table::law_entries(core.handles, session.id, handle_of(session), session.id);
    crate::table::law_entries(core.handles, session.id, handle_of(session), other);
    crate::table::law_entries(tree.parents, session.id, parent_id, session.id);
    crate::table::law_entries(tree.exits, session.id, status, session.id);
    crate::table::law_entries(tree.waiters, session.id, reply, session.id);
}

/// One action.
fn only(action: CoreAction) -> (r: Vec<CoreAction>)
    ensures
        r.deep_view() == seq![action.deep_view()],
{
    let mut r: Vec<CoreAction> = Vec::new();
    r.push(action);
    assert(r.deep_view() =~= seq![action.deep_view()]);
    r
}

/// No action.
fn nothing() -> (r: Vec<CoreAction>)
    ensures
        r.deep_view() == Seq::<CoreActionView>::empty(),
{
    let r: Vec<CoreAction> = Vec::new();
    assert(r.deep_view() =~= Seq::empty());
    r
}

/// Adds an action.
fn add_action(actions: &mut Vec<CoreAction>, action: CoreAction)
    ensures
        final(actions).deep_view() == old(actions).deep_view().push(action.deep_view()),
{
    let ghost before = actions.deep_view();
    actions.push(action);
    assert(actions.deep_view() =~= before.push(action.deep_view()));
}

/// Refuses a request.
fn refuse(to: ReplyId, why: &str) -> (r: Vec<CoreAction>)
    ensures
        r.deep_view() == answer(to, ReplyView::Refused(why@)),
{
    only(CoreAction::Reply { to, reply: Reply::Refused(why.to_owned()) })
}

/// Tells that a session is not known.
fn tell_not_found(session_id: SessionId) -> (r: Vec<CoreAction>)
    ensures
        r.deep_view() == not_found(session_id),
{
    only(
        CoreAction::Output(
            CoreOutput::SessionError { session_id, error: CoreError::SessionNotFound },
        ),
    )
}

/// What the core knows of a session.
pub fn known_of(session: &Session) -> (r: SessionHandle)
    ensures
        r.deep_view() == handle_of(session.deep_view()),
{
    let r = SessionHandle {
        max_context_window: session.max_context_window,
        model_profile: session.config.model_profile.clone(),
        session_group: session.config.session_group.clone(),
    };
    assert(r.model_profile.deep_view() =~= session.config.model_profile.deep_view());
    assert(r.session_group.deep_view() =~= session.config.session_group.deep_view());
    r
}

/// What a session is made from that another makes.
pub fn init_of_child(
    parent: Option<SessionHandle>,
    defaults: &ChildDefaults,
    system_prompt: Option<String>,
    prompt_behavior: PermissionPromptBehavior,
) -> (r: SessionInit)
    ensures
        r.deep_view() == child_init(
            parent.deep_view(),
            defaults.deep_view(),
            system_prompt.deep_view(),
            prompt_behavior,
        ),
{
    let mut max_context_window = defaults.max_context_window;
    let mut model_profile: Option<String> = None;
    let mut session_group: Option<String> = None;
    if let Some(handle) = parent {
        if handle.max_context_window.is_some() {
            max_context_window = handle.max_context_window;
        }
        model_profile = handle.model_profile;
        session_group = handle.session_group;
    }
    let r = SessionInit {
        system_prompt,
        skills: Vec::new(),
        working_directory: defaults.working_directory.clone(),
        plan_mode: false,
        prompt_behavior,
        initial_messages: Vec::new(),
        max_context_window,
        prompt_memory_mode: PromptMemoryMode::Disabled,
        agent_key: None,
        team_key: None,
        model_profile,
        session_group,
        auto_compact_threshold_percent: defaults.auto_compact_threshold_percent,
        status_report_min_tool_rounds: defaults.status_report_min_tool_rounds,
    };
    assert(r.skills.deep_view() =~= Seq::<SkillView>::empty());
    assert(r.initial_messages.deep_view() =~= Seq::<MessageView>::empty());
    r
}

impl Core {
    /// A core without sessions.
    pub fn new() -> (r: Core)
        ensures
            r.deep_view().handles == Seq::<(SessionId, SessionHandleView)>::empty(),
    {
        let r = Core { handles: Vec::new() };
        assert(r.handles.deep_view() =~= Seq::empty());
        r
    }

    /// Whether the core knows a session.
    pub fn knows(&self, id: SessionId) -> (r: bool)
        ensures
            r == known(self.deep_view(), id),
    {
        match position_of(&self.handles, id) {
            Some(_) => true,
            None => false,
        }
    }

    /// Hands a command to a session, or does nothing if it is not known.
    fn hand_over(&self, session_id: SessionId, command: SessionCommand) -> (r: Vec<CoreAction>)
        ensures
            r.deep_view() == (if known(self.deep_view(), session_id) {
                to_session(session_id, command.deep_view())
            } else {
                Seq::empty()
            }),
    {
        if self.knows(session_id) {
            only(CoreAction::ToSession { session_id, command })
        } else {
            nothing()
        }
    }

    /// Adds commands for all sessions.
    fn hand_to_all(&self, actions: &mut Vec<CoreAction>, command: &SessionCommand)
        ensures
            final(actions).deep_view() == old(actions).deep_view() + to_all(
                self.deep_view().handles,
                command.deep_view(),
            ),
    {
        let ghost start = actions.deep_view();
        let ghost wanted = to_all(self.handles.deep_view(), command.deep_view());
        let mut i: usize = 0;
        assert(start + wanted.take(0) =~= start);
        while i < self.handles.len()
            invariant
                i <= self.handles@.len(),
                wanted == to_all(self.handles.deep_view(), command.deep_view()),
                actions.deep_view() == start + wanted.take(i as int),
            decreases self.handles@.len() - i,
        {
            let ghost before = actions.deep_view();
            let session_id = self.handles[i].0;
            add_action(actions, CoreAction::ToSession { session_id, command: command.clone() });
            assert(wanted[i as int] == CoreActionView::ToSession {
                session_id,
                command: command.deep_view(),
            });
            assert(actions.deep_view() =~= before.push(wanted[i as int]));
            assert(actions.deep_view() =~= start + wanted.take(i + 1));
            i = i + 1;
        }
        assert(wanted.take(i as int) =~= wanted);
    }

    /// What a session is made from that another makes.
    pub fn child_session_init(
        &self,
        parent_id: SessionId,
        defaults: &ChildDefaults,
        system_prompt: Option<String>,
        prompt_behavior: PermissionPromptBehavior,
    ) -> (r: SessionInit)
        ensures
            r.deep_view() == child_init(
                entry(self.deep_view().handles, parent_id),
                defaults.deep_view(),
                system_prompt.deep_view(),
                prompt_behavior,
            ),
    {
        let parent = match position_of(&self.handles, parent_id) {
            Some(i) => Some(self.handles[i].1.clone()),
            None => None,
        };
        assert(parent.deep_view() == entry(self.handles.deep_view(), parent_id));
        init_of_child(parent, defaults, system_prompt, prompt_behavior)
    }

    /// Answers a session that waits for the end of a child, or notes that it waits.
    fn route_wait(
        &self,
        tree: &mut SessionTree,
        parent_id: SessionId,
        child_id: SessionId,
        non_blocking: bool,
        reply: ReplyId,
    ) -> (r: Vec<CoreAction>)
        ensures
            (final(tree).deep_view(), r.deep_view()) == wait_routed(
                old(tree).deep_view(),
                parent_id,
                child_id,
                non_blocking,
                reply,
            ),
    {
        let is_child = match tree.parent_of(child_id) {
            Some(parent) => parent == parent_id,
            None => false,
        };
        let exit = tree.exit_status(child_id);
        if is_child && exit.is_some() {
            return only(CoreAction::Reply { to: reply, reply: Reply::Exit(exit) });
        }
        if non_blocking {
            return only(CoreAction::Reply { to: reply, reply: Reply::Exit(None) });
        }
        if tree.register_waiter(child_id, reply) {
            only(CoreAction::Reply { to: reply, reply: Reply::Exit(exit) })
        } else {
            nothing()
        }
    }

    /// Takes an input, and says what has to be done.
    #[verifier::rlimit(40)]
    pub fn route(&self, tree: &mut SessionTree, defaults: &ChildDefaults, input: CoreInput) -> (r:
        Vec<CoreAction>)
        ensures
            (final(tree).deep_view(), r.deep_view()) == routed(
                self.deep_view(),
                old(tree).deep_view(),
                defaults.deep_view(),
                input.deep_view(),
            ),
    {
        match input {
            CoreInput::CreateSession { session_id, init, reply } => {
                if self.knows(session_id) {
                    refuse(reply, "session already exists")
                } else {
                    only(
                        CoreAction::Create {
                            session_id,
                            parent_id: None,
                            init,
                            task: None,
                            reply,
                        },
                    )
                }
            },
            CoreInput::SpawnSession {
                parent_id,
                child_id,
                task,
                system_prompt,
                prompt_behavior,
                reply,
            } => {
                if self.knows(child_id) {
                    refuse(reply, "session already exists")
                } else {
                    let init = self.child_session_init(
                        parent_id,
                        defaults,
                        system_prompt,
                        prompt_behavior,
                    );
                    only(
                        CoreAction::Create {
                            session_id: child_id,
                            parent_id: Some(parent_id),
                            init,
                            task: Some(task),
                            reply,
                        },
                    )
                }
            },
            CoreInput::UserMessage { session_id, content, turn_id } => {
                if self.knows(session_id) {
                    only(
                        CoreAction::ToSession {
                            session_id,
                            command: SessionCommand::UserMessage { content, turn_id },
                        },
                    )
                } else {
                    tell_not_found(session_id)
                }
            },
            CoreInput::ToolResult { session_id, tool_use_id, result } => {
                if self.knows(session_id) {
                    only(
                        CoreAction::ToSession {
                            session_id,
                            command: SessionCommand::ToolResult { tool_use_id, result },
                        },
                    )
                } else {
                    tell_not_found(session_id)
                }
            },
            CoreInput::ExitPlanMode { session_id, reply } => {
                if self.knows(session_id) {
                    only(
                        CoreAction::ToSession {
                            session_id,
                            command: SessionCommand::ExitPlanMode { reply },
                        },
                    )
                } else {
                    refuse(reply, "unknown session")
                }
            },
            CoreInput::UpdateSessionLlm {
                session_id,
                model_profile,
                max_context_window,
                reply,
            } => {
                if self.knows(session_id) {
                    only(
                        CoreAction::ToSession {
                            session_id,
                            command: SessionCommand::UpdateSessionLlm {
                                model_profile,
                                max_context_window,
                                reply,
                            },
                        },
                    )
                } else {
                    refuse(reply, "unknown session")
                }
            },
            CoreInput::CompactSession { session_id, reply } => {
                if self.knows(session_id) {
                    only(
                        CoreAction::ToSession {
                            session_id,
                            command: SessionCommand::CompactSession { reply },
                        },
                    )
                } else {
                    refuse(reply, "session not found")
                }
            },
            CoreInput::InteractionResponse { session_id, response } => self.hand_over(
                session_id,
                SessionCommand::InteractionResponse(response),
            ),
            CoreInput::Cancel { session_id } => self.hand_over(session_id, SessionCommand::Cancel),
            CoreInput::Signal { session_id, signal } => self.hand_over(
                session_id,
                SessionCommand::Signal(signal),
            ),
            CoreInput::SessionMemoryRefreshFinished {
                session_id,
                last_summarized_message_index,
                refreshed_at,
                listing_summary,
            } => self.hand_over(
                session_id,
                SessionCommand::SessionMemoryRefreshFinished {
                    last_summarized_message_index,
                    refreshed_at,
                    listing_summary,
                },
            ),
            CoreInput::SendMessage { from, to, content } => {
                if self.knows(to) {
                    let message = MailboxMessage { from, content: content.clone() };
                    let mut actions = only(
                        CoreAction::ToSession {
                            session_id: to,
                            command: SessionCommand::MailboxMessage(message),
                        },
                    );
                    add_action(
                        &mut actions,
                        CoreAction::Output(
                            CoreOutput::MessageReceived { session_id: to, from, content },
                        ),
                    );
                    actions
                } else {
                    nothing()
                }
            },
            CoreInput::RecvMessage { session_id, source, reply } => {
                if self.knows(session_id) {
                    only(
                        CoreAction::ToSession {
                            session_id,
                            command: SessionCommand::QueryMailbox { source, reply },
                        },
                    )
                } else {
                    only(CoreAction::Reply { to: reply, reply: Reply::Message(None) })
                }
            },
            CoreInput::ScheduleUserMessage { session_id, content, delay_ms, cadence_ms } => only(
                CoreAction::Schedule { session_id, content, delay_ms, cadence_ms },
            ),
            CoreInput::SendHarnessIpcMessage { target, content, reply } => only(
                CoreAction::SendIpc { target, content, reply },
            ),
            CoreInput::RecvHarnessIpcMessage { source, non_blocking, reply } => only(
                CoreAction::RecvIpc { source, non_blocking, reply },
            ),
            CoreInput::RequestCheckpoint { reply } => only(CoreAction::SnapshotAll { reply }),
            CoreInput::RequestSessionCheckpoint { session_id, reply } => only(
                CoreAction::SnapshotOne { session_id, reply },
            ),
            CoreInput::Shutdown => {
                let ghost all = to_all(self.deep_view().handles, SessionCommandView::Shutdown);
                let mut actions = nothing();
                self.hand_to_all(&mut actions, &SessionCommand::Shutdown);
                assert(actions.deep_view() =~= all);
                add_action(&mut actions, CoreAction::Stop);
                actions
            },
            CoreInput::WaitSession { parent_id, child_id, non_blocking, reply } => self.route_wait(
                tree,
                parent_id,
                child_id,
                non_blocking,
                reply,
            ),
        }
    }

    /// Takes in a session that was made.
    pub fn session_made(
        &mut self,
        tree: &mut SessionTree,
        session: &Session,
        parent_id: Option<SessionId>,
        task: Option<String>,
        turn_id: String,
        reply: ReplyId,
    ) -> (r: Vec<CoreAction>)
        ensures
            (final(self).deep_view(), final(tree).deep_view(), r.deep_view()) == made(
                old(self).deep_view(),
                old(tree).deep_view(),
                session.deep_view(),
                parent_id,
                task.deep_view(),
                turn_id@,
                reply,
            ),
    {
        let ghost wanted = made(
            self.deep_view(),
            tree.deep_view(),
            session.deep_view(),
            parent_id,
            task.deep_view(),
            turn_id@,
            reply,
        );
        let session_id = session.id;
        if let Some(parent) = parent_id {
            tree.add_child(parent, session_id);
        }
        if self.knows(session_id) {
            return refuse(reply, "session already exists");
        }
        put(&mut self.handles, session_id, known_of(session));
        let mut actions = nothing();
        if let Some(parent) = parent_id {
            add_action(
                &mut actions,
                CoreAction::Output(
                    CoreOutput::ChildSpawned { parent_id: parent, child_id: session_id },
                ),
            );
        }
        add_action(
            &mut actions,
            CoreAction::Output(
                CoreOutput::SessionStateChanged { session_id, state: SessionState::Idle },
            ),
        );
        if let Some(content) = task {
            add_action(
                &mut actions,
                CoreAction::ToSession {
                    session_id,
                    command: SessionCommand::UserMessage { content, turn_id },
                },
            );
        }
        add_action(&mut actions, CoreAction::Checkpoint);
        add_action(&mut actions, CoreAction::Reply { to: reply, reply: Reply::Accepted });
        assert(actions.deep_view() =~= wanted.2);
        actions
    }

    /// Takes in a session that was brought back. One that is known already stays as it is.
    pub fn session_restored(&mut self, session: &Session) -> (r: Vec<CoreAction>)
        ensures
            (final(self).deep_view(), r.deep_view()) == brought_back(
                old(self).deep_view(),
                session.deep_view(),
            ),
    {
        let session_id = session.id;
        if self.knows(session_id) {
            return nothing();
        }
        put(&mut self.handles, session_id, known_of(session));
        only(
            CoreAction::Output(
                CoreOutput::SessionStateChanged { session_id, state: session.state },
            ),
        )
    }

    /// Answers for a session that could not be made.
    pub fn creation_failed(parent_id: Option<SessionId>, error: &CoreError, reply: ReplyId) -> (r:
        Vec<CoreAction>)
        ensures
            r.deep_view() == answer(
                reply,
                ReplyView::Refused(
                    if parent_id is Some {
                        error.deep_view().text()
                    } else {
                        "failed to create session: "@ + error.deep_view().text()
                    },
                ),
            ),
    {
        let why = error.text();
        if parent_id.is_some() {
            return refuse(reply, why.as_str());
        }
        let mut message = "failed to create session: ".to_owned();
        message.append(why.as_str());
        refuse(reply, message.as_str())
    }

    /// Takes out a child that has ended.
    pub fn child_finished(
        &mut self,
        tree: &mut SessionTree,
        session_id: SessionId,
        parent_id: SessionId,
        status: ExitStatus,
    ) -> (r: Vec<CoreAction>)
        ensures
            (final(self).deep_view(), final(tree).deep_view(), r.deep_view()) == child_gone(
                old(self).deep_view(),
                old(tree).deep_view(),
                session_id,
                parent_id,
                status.deep_view(),
            ),
    {
        let ghost wanted = child_gone(
            self.deep_view(),
            tree.deep_view(),
            session_id,
            parent_id,
            status.deep_view(),
        );
        take_out(&mut self.handles, session_id);
        let told = tree.record_exit(session_id, status.clone());
        let mut actions = nothing();
        let ghost answers = exit_answers(told@, status.deep_view());
        let mut i: usize = 0;
        assert(answers.take(0) =~= Seq::empty());
        while i < told.len()
            invariant
                i <= told@.len(),
                answers == exit_answers(told@, status.deep_view()),
                actions.deep_view() == answers.take(i as int),
            decreases told@.len() - i,
        {
            let ghost before = actions.deep_view();
            let answer_status = Some(status.clone());
            assert(answer_status.deep_view() == Some(status.deep_view()));
            add_action(
                &mut actions,
                CoreAction::Reply { to: told[i], reply: Reply::Exit(answer_status) },
            );
            assert(actions.deep_view() =~= before.push(answers[i as int]));
            assert(actions.deep_view() =~= answers.take(i + 1));
            i = i + 1;
        }
        assert(answers.take(i as int) =~= answers);
        add_action(
            &mut actions,
            CoreAction::Output(
                CoreOutput::SessionStateChanged { session_id, state: SessionState::Destroyed },
            ),
        );
        add_action(
            &mut actions,
            CoreAction::Output(
                CoreOutput::ChildExited {
                    parent_id,
                    child_id: session_id,
                    status: status.clone(),
                },
            ),
        );
        self.hand_to_all(
            &mut actions,
            &SessionCommand::ChildExited { child_id: session_id, status },
        );
        add_action(&mut actions, CoreAction::Checkpoint);
        assert(actions.deep_view() =~= wanted.2);
        actions
    }
}

} // verus!
