//! What a session does with the commands that reach it, between turns and during them.

use std::collections::VecDeque;

use vstd::prelude::*;
use vstd::string::*;

use crate::channel::{
    outcome_text, CoreOutput, CoreOutputView, InteractionResponse, InteractionResponseView,
    MailboxMessage, MailboxMessageView, MessageSource, ReplyId, ToolOutcome, ToolOutcomeView,
};
use crate::context::{
    fresh_diagnostics, interrupted, last_said, refresh_finished, MemoryDiagnostics, Session,
    SessionView,
};
use crate::effect::{
    add_effect, send, send_all, send_state, state_effect, Effect, EffectView, Reply, ReplyView,
};
use crate::error::CoreError;
use crate::message::{text_message, tool_result_message, Message, Role};
use crate::session::{
    interrupts, state_text, ExitStatus, ExitStatusView, SessionId, SessionSignal, SessionState,
};
use crate::session_tree::{SessionTree, SessionTreeView};
use crate::table::{entry, without};
use crate::turn::{report_effects, with_report, TurnOutcome, TurnOutcomeView};
use crate::wait::{
    admits, after_pop, mailbox_matches_source, message_json, pop_mailbox_message, popped,
    render_message, SuspendedWait, SuspendedWaitView,
};

verus! {

broadcast use vstd::seq::group_seq_axioms;

/// A command to a session.
#[derive(Debug)]
pub enum SessionCommand {
    UserMessage { content: String, turn_id: String },
    ExitPlanMode { reply: ReplyId },
    UpdateSessionLlm {
        model_profile: Option<String>,
        max_context_window: Option<u64>,
        reply: ReplyId,
    },
    CompactSession { reply: ReplyId },
    ToolResult { tool_use_id: String, result: ToolOutcome },
    InteractionResponse(InteractionResponse),
    Cancel,
    Signal(SessionSignal),
    MailboxMessage(MailboxMessage),
    Snapshot { reply: ReplyId },
    SessionMemoryRefreshFinished {
        last_summarized_message_index: Option<usize>,
        refreshed_at: Option<String>,
        listing_summary: Option<String>,
    },
    QueryMailbox { source: MessageSource, reply: ReplyId },
    ChildExited { child_id: SessionId, status: ExitStatus },
    Shutdown,
}

/// The model of [`SessionCommand`].
#[verifier::ext_equal]
pub enum SessionCommandView {
    UserMessage { content: Seq<char>, turn_id: Seq<char> },
    ExitPlanMode { reply: ReplyId },
    UpdateSessionLlm {
        model_profile: Option<Seq<char>>,
        max_context_window: Option<u64>,
        reply: ReplyId,
    },
    CompactSession { reply: ReplyId },
    ToolResult { tool_use_id: Seq<char>, result: ToolOutcomeView },
    InteractionResponse(InteractionResponseView),
    Cancel,
    Signal(SessionSignal),
    MailboxMessage(MailboxMessageView),
    Snapshot { reply: ReplyId },
    SessionMemoryRefreshFinished {
        last_summarized_message_index: Option<usize>,
        refreshed_at: Option<Seq<char>>,
        listing_summary: Option<Seq<char>>,
    },
    QueryMailbox { source: MessageSource, reply: ReplyId },
    ChildExited { child_id: SessionId, status: ExitStatusView },
    Shutdown,
}

impl DeepView for SessionCommand {
    type V = SessionCommandView;

    open spec fn deep_view(&self) -> SessionCommandView {
        match *self {
            SessionCommand::UserMessage { content, turn_id } => SessionCommandView::UserMessage {
                content: content.deep_view(),
                turn_id: turn_id.deep_view(),
            },
            SessionCommand::ExitPlanMode { reply } => SessionCommandView::ExitPlanMode { reply },
            SessionCommand::UpdateSessionLlm {
                model_profile,
                max_context_window,
                reply,
            } => SessionCommandView::UpdateSessionLlm {
                model_profile: model_profile.deep_view(),
                max_context_window,
                reply,
            },
            SessionCommand::CompactSession { reply } => SessionCommandView::CompactSession {
                reply,
            },
            SessionCommand::ToolResult { tool_use_id, result } => SessionCommandView::ToolResult {
                tool_use_id: tool_use_id.deep_view(),
                result: result.deep_view(),
            },
            SessionCommand::InteractionResponse(value) => SessionCommandView::InteractionResponse(
                value.deep_view(),
            ),
            SessionCommand::Cancel => SessionCommandView::Cancel,
            SessionCommand::Signal(value) => SessionCommandView::Signal(value),
            SessionCommand::MailboxMessage(value) => SessionCommandView::MailboxMessage(
                value.deep_view(),
            ),
            SessionCommand::Snapshot { reply } => SessionCommandView::Snapshot { reply },
            SessionCommand::SessionMemoryRefreshFinished {
                last_summarized_message_index,
                refreshed_at,
                listing_summary,
            } => SessionCommandView::SessionMemoryRefreshFinished {
                last_summarized_message_index,
                refreshed_at: refreshed_at.deep_view(),
                listing_summary: listing_summary.deep_view(),
            },
            SessionCommand::QueryMailbox { source, reply } => SessionCommandView::QueryMailbox {
                source,
                reply,
            },
            SessionCommand::ChildExited { child_id, status } => SessionCommandView::ChildExited {
                child_id,
                status: status.deep_view(),
            },
            SessionCommand::Shutdown => SessionCommandView::Shutdown,
        }
    }
}

impl Clone for SessionCommand {
    fn clone(&self) -> (r: Self)
        ensures
            r.deep_view() == self.deep_view(),
    {
        match self {
            SessionCommand::UserMessage { content, turn_id } => {
                SessionCommand::UserMessage { content: content.clone(), turn_id: turn_id.clone() }
            },
            SessionCommand::ExitPlanMode { reply } => {
                SessionCommand::ExitPlanMode { reply: *reply }
            },
            SessionCommand::UpdateSessionLlm { model_profile, max_context_window, reply } => {
                let new_model_profile = model_profile.clone();
                assert(new_model_profile.deep_view() =~= model_profile.deep_view());
                SessionCommand::UpdateSessionLlm {
                    model_profile: new_model_profile,
                    max_context_window: *max_context_window,
                    reply: *reply,
                }
            },
            SessionCommand::CompactSession { reply } => {
                SessionCommand::CompactSession { reply: *reply }
            },
            SessionCommand::ToolResult { tool_use_id, result } => {
                SessionCommand::ToolResult {
                    tool_use_id: tool_use_id.clone(),
                    result: result.clone(),
                }
            },
            SessionCommand::InteractionResponse(value) => SessionCommand::InteractionResponse(
                value.clone(),
            ),
            SessionCommand::Cancel => SessionCommand::Cancel,
            SessionCommand::Signal(value) => SessionCommand::Signal(*value),
            SessionCommand::MailboxMessage(value) => SessionCommand::MailboxMessage(value.clone()),
            SessionCommand::Snapshot { reply } => {
                SessionCommand::Snapshot { reply: *reply }
            },
            SessionCommand::SessionMemoryRefreshFinished {
                last_summarized_message_index,
                refreshed_at,
                listing_summary,
            } => {
                let new_refreshed_at = refreshed_at.clone();
                assert(new_refreshed_at.deep_view() =~= refreshed_at.deep_view());
                let new_listing_summary = listing_summary.clone();
                assert(new_listing_summary.deep_view() =~= listing_summary.deep_view());
                SessionCommand::SessionMemoryRefreshFinished {
                    last_summarized_message_index: *last_summarized_message_index,
                    refreshed_at: new_refreshed_at,
                    listing_summary: new_listing_summary,
                }
            },
            SessionCommand::QueryMailbox { source, reply } => {
                SessionCommand::QueryMailbox { source: *source, reply: *reply }
            },
            SessionCommand::ChildExited { child_id, status } => {
                SessionCommand::ChildExited { child_id: *child_id, status: status.clone() }
            },
            SessionCommand::Shutdown => SessionCommand::Shutdown,
        }
    }
}

/// A result that goes into the history, and with which a turn goes on.
#[derive(Debug)]
pub struct PendingResult {
    /// Whether the session waited for it.
    pub from_wait: bool,
    pub tool_use_id: String,
    pub output: String,
    pub is_error: bool,
}

/// The model of [`PendingResult`].
#[verifier::ext_equal]
pub struct PendingResultView {
    pub from_wait: bool,
    pub tool_use_id: Seq<char>,
    pub output: Seq<char>,
    pub is_error: bool,
}

impl DeepView for PendingResult {
    type V = PendingResultView;

    open spec fn deep_view(&self) -> PendingResultView {
        PendingResultView {
            from_wait: self.from_wait,
            tool_use_id: self.tool_use_id.deep_view(),
            output: self.output.deep_view(),
            is_error: self.is_error,
        }
    }
}

/// What the host of a session has to do next.
#[derive(Debug)]
pub enum ActorNext {
    /// Take the next command.
    Continue,
    /// Take no more commands.
    Stop,
    /// Run a turn. The session may end with it.
    RunTurn { stops: bool },
    /// Leave plan mode, and answer.
    ExitPlanMode { reply: ReplyId },
    /// Change to another model, and answer.
    UpdateLlm { model_profile: Option<String>, max_context_window: Option<u64>, reply: ReplyId },
    /// Compact the history, and answer.
    Compact { reply: ReplyId },
    /// Write out how a child ended.
    RenderExit(ExitStatus),
    /// Prepare a result for the history.
    PrepareResult(PendingResult),
}

/// The model of [`ActorNext`].
#[verifier::ext_equal]
pub enum ActorNextView {
    Continue,
    Stop,
    RunTurn { stops: bool },
    ExitPlanMode { reply: ReplyId },
    UpdateLlm { model_profile: Option<Seq<char>>, max_context_window: Option<u64>, reply: ReplyId },
    Compact { reply: ReplyId },
    RenderExit(ExitStatusView),
    PrepareResult(PendingResultView),
}

impl DeepView for ActorNext {
    type V = ActorNextView;

    open spec fn deep_view(&self) -> ActorNextView {
        match *self {
            ActorNext::Continue => ActorNextView::Continue,
            ActorNext::Stop => ActorNextView::Stop,
            ActorNext::RunTurn { stops } => ActorNextView::RunTurn { stops },
            ActorNext::ExitPlanMode { reply } => ActorNextView::ExitPlanMode { reply },
            ActorNext::UpdateLlm {
                model_profile,
                max_context_window,
                reply,
            } => ActorNextView::UpdateLlm {
                model_profile: model_profile.deep_view(),
                max_context_window,
                reply,
            },
            ActorNext::Compact { reply } => ActorNextView::Compact { reply },
            ActorNext::RenderExit(value) => ActorNextView::RenderExit(value.deep_view()),
            ActorNext::PrepareResult(value) => ActorNextView::PrepareResult(value.deep_view()),
        }
    }
}

/// A session that takes commands.
#[derive(Debug)]
pub struct SessionActor {
    pub parent_id: Option<SessionId>,
    pub session: Session,
    /// Commands that came during a turn and wait for its end.
    pub deferred: VecDeque<SessionCommand>,
}

/// The model of [`SessionActor`].
#[verifier::ext_equal]
pub struct SessionActorView {
    pub parent_id: Option<SessionId>,
    pub session: SessionView,
    pub deferred: Seq<SessionCommandView>,
}

impl DeepView for SessionActor {
    type V = SessionActorView;

    open spec fn deep_view(&self) -> SessionActorView {
        SessionActorView {
            parent_id: self.parent_id,
            session: self.session.deep_view(),
            deferred: self.deferred.deep_view(),
        }
    }
}

/// A session that takes commands, the tree of sessions, what has to be done for them, and
/// what comes next.
#[verifier::ext_equal]
pub struct ActorMove {
    pub actor: SessionActorView,
    pub tree: SessionTreeView,
    pub effects: Seq<EffectView>,
    pub next: ActorNextView,
}

/// A session with other contents.
pub open spec fn with_session(actor: SessionActorView, session: SessionView) -> SessionActorView {
    SessionActorView { session, ..actor }
}

/// A tree in which a session waits no more.
pub open spec fn without_wait(tree: SessionTreeView, id: SessionId) -> SessionTreeView {
    SessionTreeView { waits: without(tree.waits, id), ..tree }
}

/// What is done to a tool that may run when its session is stopped.
pub open spec fn stop_effects(session: SessionView) -> Seq<EffectView> {
    if session.cancel_armed {
        seq![EffectView::CancelTool]
    } else {
        Seq::empty()
    }
}

/// A message of the user begins a turn.
pub open spec fn user_spoke(
    actor: SessionActorView,
    tree: SessionTreeView,
    content: Seq<char>,
    turn_id: Seq<char>,
) -> ActorMove {
    let session = actor.session;
    let told = SessionView {
        interrupted: false,
        suspended_wait: None,
        state: SessionState::Streaming,
        current_turn_tool_rounds: 0,
        history: session.history.push(text_message(Role::User, content)),
        diagnostics: Some(fresh_diagnostics()),
        ..session
    };
    ActorMove {
        actor: with_session(actor, with_report(told, None)),
        tree: without_wait(tree, session.id),
        effects: report_effects(told, None).push(
            state_effect(session.id, SessionState::Streaming),
        ).push(EffectView::Output(CoreOutputView::TurnStarted { session_id: session.id, turn_id })),
        next: ActorNextView::RunTurn { stops: true },
    }
}

/// A session is stopped between turns.
pub open spec fn stopped(actor: SessionActorView, tree: SessionTreeView) -> ActorMove {
    ActorMove {
        actor: with_session(actor, interrupted(actor.session)),
        tree: without_wait(tree, actor.session.id),
        effects: stop_effects(actor.session).push(
            state_effect(actor.session.id, SessionState::Idle),
        ).push(EffectView::Checkpoint),
        next: ActorNextView::Continue,
    }
}

/// A session goes on after it was stopped or paused.
pub open spec fn continued(actor: SessionActorView, tree: SessionTreeView) -> ActorMove {
    let state = if actor.session.state == SessionState::Paused {
        SessionState::Idle
    } else {
        actor.session.state
    };
    ActorMove {
        actor: with_session(
            actor,
            SessionView { interrupted: false, state, ..actor.session },
        ),
        tree,
        effects: seq![state_effect(actor.session.id, state)],
        next: ActorNextView::Continue,
    }
}

/// Nothing changes.
pub open spec fn unmoved(
    actor: SessionActorView,
    tree: SessionTreeView,
    effects: Seq<EffectView>,
    next: ActorNextView,
) -> ActorMove {
    ActorMove { actor, tree, effects, next }
}

/// The result that a wait ended with.
pub open spec fn pending(tool_use_id: Seq<char>, outcome: ToolOutcomeView, from_wait: bool) -> ActorNextView {
    let (output, is_error) = outcome_text(outcome);
    ActorNextView::PrepareResult(PendingResultView { from_wait, tool_use_id, output, is_error })
}

/// A session that waits goes on, with the given result, or with what it waited for.
pub open spec fn woken(
    actor: SessionActorView,
    tree: SessionTreeView,
    result: Option<ToolOutcomeView>,
) -> ActorMove {
    match actor.session.suspended_wait {
        None => unmoved(actor, tree, Seq::empty(), ActorNextView::Continue),
        Some(wait) => match result {
            Some(outcome) => unmoved(
                actor,
                tree,
                Seq::empty(),
                pending(wait.tool_use_id(), outcome, true),
            ),
            None => match wait {
                SuspendedWaitView::Mailbox { tool_use_id, source, .. } => ActorMove {
                    actor: with_session(
                        actor,
                        SessionView {
                            mailbox: after_pop(actor.session.mailbox, source),
                            ..actor.session
                        },
                    ),
                    tree,
                    effects: Seq::empty(),
                    next: pending(
                        tool_use_id,
                        match popped(actor.session.mailbox, source) {
                            Some(message) => ToolOutcomeView::Success {
                                output: message_json(message),
                            },
                            None => ToolOutcomeView::Error {
                                message: "recv_message resumed without a matching message"@,
                            },
                        },
                        true,
                    ),
                },
                SuspendedWaitView::ChildExit { tool_use_id, child_id, .. } => unmoved(
                    actor,
                    tree,
                    Seq::empty(),
                    match entry(tree.exits, child_id) {
                        Some(status) => ActorNextView::RenderExit(status),
                        None => pending(
                            tool_use_id,
                            ToolOutcomeView::Error {
                                message: "wait_child resumed before child exit was recorded"@,
                            },
                            true,
                        ),
                    },
                ),
            },
        },
    }
}

/// A message comes. It wakes a session that waits for it.
pub open spec fn message_came(
    actor: SessionActorView,
    tree: SessionTreeView,
    message: MailboxMessageView,
) -> ActorMove {
    let holding = with_session(
        actor,
        SessionView { mailbox: actor.session.mailbox.push(message), ..actor.session },
    );
    if actor.session.suspended_wait matches Some(SuspendedWaitView::Mailbox { source, .. })
        && admits(source, message) {
        woken(holding, tree, None)
    } else {
        unmoved(holding, tree, Seq::empty(), ActorNextView::Continue)
    }
}

/// A child has ended. That wakes a session that waits for it.
pub open spec fn child_ended(
    actor: SessionActorView,
    tree: SessionTreeView,
    child_id: SessionId,
) -> ActorMove {
    if actor.session.suspended_wait matches Some(
        SuspendedWaitView::ChildExit { child_id: awaited, .. },
    ) && awaited == child_id {
        woken(actor, tree, None)
    } else {
        unmoved(actor, tree, Seq::empty(), ActorNextView::Continue)
    }
}

/// A result comes from outside. It wakes a session that waits for anything, and is else
/// taken only by a session that waits for a result.
pub open spec fn result_came(
    actor: SessionActorView,
    tree: SessionTreeView,
    tool_use_id: Seq<char>,
    result: ToolOutcomeView,
) -> ActorMove {
    if actor.session.suspended_wait is Some {
        woken(actor, tree, Some(result))
    } else if actor.session.state != SessionState::AwaitingToolResult {
        unmoved(actor, tree, Seq::empty(), ActorNextView::Continue)
    } else {
        unmoved(actor, tree, Seq::empty(), pending(tool_use_id, result, false))
    }
}

/// Whether a session can be changed now.
pub open spec fn changeable(session: SessionView) -> bool {
    session.state == SessionState::Idle || session.state == SessionState::Paused
}

/// A request that is refused because of the state of the session.
pub open spec fn refused_now(
    actor: SessionActorView,
    tree: SessionTreeView,
    reply: ReplyId,
    what: Seq<char>,
) -> ActorMove {
    unmoved(
        actor,
        tree,
        seq![
            EffectView::Reply {
                to: reply,
                reply: ReplyView::Refused(what + state_text(actor.session.state)),
            },
        ],
        ActorNextView::Continue,
    )
}

/// Asking for a message.
pub open spec fn mailbox_queried(
    actor: SessionActorView,
    tree: SessionTreeView,
    source: MessageSource,
    reply: ReplyId,
) -> ActorMove {
    ActorMove {
        actor: with_session(
            actor,
            SessionView { mailbox: after_pop(actor.session.mailbox, source), ..actor.session },
        ),
        tree,
        effects: seq![
            EffectView::Reply {
                to: reply,
                reply: ReplyView::Message(popped(actor.session.mailbox, source)),
            },
        ],
        next: ActorNextView::Continue,
    }
}

/// What a command does between turns.
pub open spec fn command_move(
    actor: SessionActorView,
    tree: SessionTreeView,
    command: SessionCommandView,
) -> ActorMove {
    match command {
        SessionCommandView::UserMessage { content, turn_id } => user_spoke(
            actor,
            tree,
            content,
            turn_id,
        ),
        SessionCommandView::ExitPlanMode { reply } => if changeable(actor.session) {
            unmoved(actor, tree, Seq::empty(), ActorNextView::ExitPlanMode { reply })
        } else {
            refused_now(actor, tree, reply, "cannot exit plan mode while session is "@)
        },
        SessionCommandView::UpdateSessionLlm {
            model_profile,
            max_context_window,
            reply,
        } => if changeable(actor.session) {
            unmoved(
                actor,
                tree,
                Seq::empty(),
                ActorNextView::UpdateLlm { model_profile, max_context_window, reply },
            )
        } else {
            refused_now(actor, tree, reply, "cannot switch model while session is "@)
        },
        SessionCommandView::CompactSession { reply } => unmoved(
            actor,
            tree,
            Seq::empty(),
            ActorNextView::Compact { reply },
        ),
        SessionCommandView::ToolResult { tool_use_id, result } => result_came(
            actor,
            tree,
            tool_use_id,
            result,
        ),
        SessionCommandView::InteractionResponse(_) => unmoved(
            actor,
            tree,
            Seq::empty(),
            ActorNextView::Continue,
        ),
        SessionCommandView::Cancel => stopped(actor, tree),
        SessionCommandView::Signal(signal) => if interrupts(signal) {
            stopped(actor, tree)
        } else {
            continued(actor, tree)
        },
        SessionCommandView::MailboxMessage(message) => message_came(actor, tree, message),
        SessionCommandView::Snapshot { reply } => unmoved(
            actor,
            tree,
            seq![EffectView::Snapshot { to: reply }],
            ActorNextView::Continue,
        ),
        SessionCommandView::SessionMemoryRefreshFinished {
            last_summarized_message_index,
            refreshed_at,
            listing_summary,
        } => ActorMove {
            actor: with_session(
                actor,
                refresh_finished(
                    actor.session,
                    last_summarized_message_index,
                    refreshed_at,
                    listing_summary,
                ),
            ),
            tree,
            effects: seq![EffectView::Checkpoint],
            next: ActorNextView::Continue,
        },
        SessionCommandView::QueryMailbox { source, reply } => mailbox_queried(
            actor,
            tree,
            source,
            reply,
        ),
        SessionCommandView::ChildExited { child_id, .. } => child_ended(actor, tree, child_id),
        SessionCommandView::Shutdown => unmoved(actor, tree, Seq::empty(), ActorNextView::Stop),
    }
}

/// Whether a command waits for the end of a turn.
pub open spec fn deferrable(command: SessionCommandView) -> bool {
    match command {
        SessionCommandView::UserMessage { .. } | SessionCommandView::ExitPlanMode { .. }
        | SessionCommandView::UpdateSessionLlm { .. } | SessionCommandView::CompactSession { .. }
        | SessionCommandView::ToolResult { .. } | SessionCommandView::InteractionResponse(_)
        | SessionCommandView::SessionMemoryRefreshFinished { .. }
        | SessionCommandView::Shutdown => true,
        _ => false,
    }
}

/// Whether a command stops a turn.
pub open spec fn stops_turn(command: SessionCommandView) -> bool {
    match command {
        SessionCommandView::Cancel => true,
        SessionCommandView::Signal(signal) => interrupts(signal),
        _ => false,
    }
}

/// What a command does during a turn. There the session is only stopped, asked or given a
/// message. All else waits for the end of the turn, in the order in which it came.
pub open spec fn control_move(
    actor: SessionActorView,
    tree: SessionTreeView,
    command: SessionCommandView,
) -> ActorMove {
    if stops_turn(command) {
        ActorMove {
            actor: with_session(actor, interrupted(actor.session)),
            tree: without_wait(tree, actor.session.id),
            effects: stop_effects(actor.session),
            next: ActorNextView::Continue,
        }
    } else if deferrable(command) {
        unmoved(
            SessionActorView { deferred: actor.deferred.push(command), ..actor },
            tree,
            Seq::empty(),
            ActorNextView::Continue,
        )
    } else {
        match command {
            SessionCommandView::MailboxMessage(message) => unmoved(
                with_session(
                    actor,
                    SessionView { mailbox: actor.session.mailbox.push(message), ..actor.session },
                ),
                tree,
                Seq::empty(),
                ActorNextView::Continue,
            ),
            SessionCommandView::Snapshot { reply } => unmoved(
                actor,
                tree,
                seq![EffectView::Snapshot { to: reply }],
                ActorNextView::Continue,
            ),
            SessionCommandView::QueryMailbox { source, reply } => mailbox_queried(
                actor,
                tree,
                source,
                reply,
            ),
            _ => unmoved(actor, tree, Seq::empty(), ActorNextView::Continue),
        }
    }
}

/// A result is in the history, and the turn goes on with it.
pub open spec fn result_recorded(
    actor: SessionActorView,
    tree: SessionTreeView,
    result: PendingResultView,
    prepared: Seq<char>,
) -> ActorMove {
    let session = actor.session;
    let told = SessionView {
        history: session.history.push(
            tool_result_message(result.tool_use_id, prepared, result.is_error),
        ),
        state: SessionState::Streaming,
        suspended_wait: if result.from_wait {
            None
        } else {
            session.suspended_wait
        },
        ..session
    };
    let streaming = state_effect(session.id, SessionState::Streaming);
    ActorMove {
        actor: with_session(actor, told),
        tree: if result.from_wait {
            without_wait(tree, session.id)
        } else {
            tree
        },
        effects: if result.from_wait {
            seq![
                EffectView::Output(
                    CoreOutputView::ToolResult {
                        session_id: session.id,
                        tool_use_id: result.tool_use_id,
                        tool_name: "suspended_wait"@,
                        content: result.output,
                        is_error: result.is_error,
                        duration_us: 0,
                    },
                ),
                streaming,
            ]
        } else {
            seq![streaming]
        },
        next: ActorNextView::RunTurn { stops: false },
    }
}

/// How a child ended whose turn is over. One that is suspended has not.
pub open spec fn exit_of(session: SessionView, outcome: TurnOutcomeView) -> Option<ExitStatusView> {
    match outcome {
        TurnOutcomeView::Completed(answer) => Some(
            ExitStatusView::Success {
                output: match answer {
                    Some(text) => text,
                    None => match last_said(session.history) {
                        Some(text) => text,
                        None => Seq::empty(),
                    },
                },
            },
        ),
        TurnOutcomeView::Failed(error) => Some(ExitStatusView::Failed { error }),
        TurnOutcomeView::Cancelled => Some(ExitStatusView::Cancelled),
        TurnOutcomeView::Suspended => None,
    }
}

/// A turn is over. With it ends a session that has a parent, unless it is suspended.
pub open spec fn turn_over(
    actor: SessionActorView,
    tree: SessionTreeView,
    outcome: TurnOutcomeView,
) -> ActorMove {
    match (actor.parent_id, exit_of(actor.session, outcome)) {
        (Some(parent_id), Some(status)) => ActorMove {
            actor: with_session(
                actor,
                SessionView { state: SessionState::Destroyed, ..actor.session },
            ),
            tree,
            effects: seq![
                EffectView::ChildFinished { session_id: actor.session.id, parent_id, status },
            ],
            next: ActorNextView::Stop,
        },
        _ => unmoved(actor, tree, Seq::empty(), ActorNextView::Continue),
    }
}

/// During a turn no command is lost, and none that waits is touched: a command is done at
/// once, or it is put behind those that wait.
pub proof fn law_commands_wait_in_order(
    actor: SessionActorView,
    tree: SessionTreeView,
    command: SessionCommandView,
)
    ensures
        control_move(actor, tree, command).actor.deferred == (if deferrable(command) {
            actor.deferred.push(command)
        } else {
            actor.deferred
        }),
        command is UserMessage ==> deferrable(command),
        deferrable(command) ==> !stops_turn(command) && control_move(
            actor,
            tree,
            command,
        ).actor.session == actor.session,
{
}

/// A session that was stopped stays so until a user message or a signal to go on: every
/// other command leaves it so, between turns and during them.
pub proof fn law_interrupt_stays(
    actor: SessionActorView,
    tree: SessionTreeView,
    command: SessionCommandView,
)
    requires
        actor.session.interrupted,
    ensures
        control_move(actor, tree, command).actor.session.interrupted,
        !(command is UserMessage) && command != SessionCommandView::Signal(SessionSignal::Continue)
            ==> command_move(actor, tree, command).actor.session.interrupted,
        command is UserMessage ==> !command_move(actor, tree, command).actor.session.interrupted,
{
}

/// A stopped session has no tool that runs, no open question, and waits in the tree for
/// nobody.
pub proof fn law_stopped_session_is_at_rest(
    actor: SessionActorView,
    tree: SessionTreeView,
    command: SessionCommandView,
)
    requires
        stops_turn(command),
    ensures
        ({
            let after = control_move(actor, tree, command);
            &&& after.actor.session.interrupted
            &&& after.actor.session.state == SessionState::Idle
            &&& !after.actor.session.cancel_armed
            &&& !after.actor.session.approval_pending
            &&& entry(after.tree.waits, actor.session.id) is None
        }),
        command_move(actor, tree, command).actor == control_move(actor, tree, command).actor,
{
    crate::table::law_entries(tree.waits, actor.session.id, actor.session.id, actor.session.id);
}

/// A session that waits for a message goes on with the message it waited for: when the first
/// one comes that its source admits, that one is its result.
pub proof fn law_awaited_message_wakes(
    actor: SessionActorView,
    tree: SessionTreeView,
    message: MailboxMessageView,
)
    requires
        actor.session.suspended_wait matches Some(SuspendedWaitView::Mailbox { source, .. })
            && admits(source, message) && popped(actor.session.mailbox, source) is None,
    ensures
        ({
            let wait = actor.session.suspended_wait->0;
            let after = command_move(actor, tree, SessionCommandView::MailboxMessage(message));
            &&& after.next == ActorNextView::PrepareResult(
                PendingResultView {
                    from_wait: true,
                    tool_use_id: wait.tool_use_id(),
                    output: message_json(message),
                    is_error: false,
                },
            )
            &&& after.actor.session.mailbox == actor.session.mailbox
        }),
{
    let source = actor.session.suspended_wait->0->source;
    lemma_pop_last(actor.session.mailbox, message, source);
}

proof fn lemma_pop_last(
    mailbox: Seq<MailboxMessageView>,
    message: MailboxMessageView,
    source: MessageSource,
)
    requires
        popped(mailbox, source) is None,
        admits(source, message),
    ensures
        popped(mailbox.push(message), source) == Some(message),
        after_pop(mailbox.push(message), source) == mailbox,
{
    lemma_before_last(mailbox, message, source);
    assert(mailbox.push(message).remove(mailbox.len() as int) =~= mailbox);
}

proof fn lemma_before_last(
    mailbox: Seq<MailboxMessageView>,
    message: MailboxMessageView,
    source: MessageSource,
)
    requires
        crate::wait::before_match(mailbox, source) >= mailbox.len(),
        admits(source, message),
    ensures
        crate::wait::before_match(mailbox.push(message), source) == mailbox.len(),
    decreases mailbox.len(),
{
    if mailbox.len() > 0 {
        assert(mailbox.push(message).drop_first() =~= mailbox.drop_first().push(message));
        lemma_before_last(mailbox.drop_first(), message, source);
    }
}

/// A session with a parent ends with its turn, once, and is then destroyed. One without goes
/// on, and so does one whose turn is suspended.
pub proof fn law_child_ends_with_its_turn(
    actor: SessionActorView,
    tree: SessionTreeView,
    outcome: TurnOutcomeView,
)
    ensures
        turn_over(actor, tree, outcome).next == (if actor.parent_id is Some && !(
        outcome is Suspended) {
            ActorNextView::Stop
        } else {
            ActorNextView::Continue
        }),
        turn_over(actor, tree, outcome).next == ActorNextView::Stop ==> {
            &&& turn_over(actor, tree, outcome).actor.session.state == SessionState::Destroyed
            &&& turn_over(actor, tree, outcome).effects.len() == 1
        },
        turn_over(actor, tree, outcome).next == ActorNextView::Continue ==> turn_over(
            actor,
            tree,
            outcome,
        ).actor == actor,
{
}

/// Whether a session, the tree, the effects and what comes next are those of a move.
pub open spec fn actor_moved(
    expected: ActorMove,
    actor: SessionActor,
    tree: SessionTree,
    effects: Vec<Effect>,
    next: ActorNext,
) -> bool {
    &&& actor.deep_view() == expected.actor
    &&& tree.deep_view() == expected.tree
    &&& effects.deep_view() == expected.effects
    &&& next.deep_view() == expected.next
}

/// Whether a signal stops a session.
fn is_stop(signal: SessionSignal) -> (r: bool)
    ensures
        r == interrupts(signal),
{
    match signal {
        SessionSignal::Stop | SessionSignal::Term | SessionSignal::Kill => true,
        SessionSignal::Continue => false,
    }
}

/// The result that a wait ended with.
fn pending_result(tool_use_id: String, outcome: &ToolOutcome, from_wait: bool) -> (r: ActorNext)
    ensures
        r.deep_view() == pending(tool_use_id@, outcome.deep_view(), from_wait),
{
    let (output, is_error) = outcome.output_text();
    ActorNext::PrepareResult(PendingResult { from_wait, tool_use_id, output, is_error })
}

impl SessionActor {
    /// The next of the commands that waited for the end of a turn.
    pub fn next_deferred(&mut self) -> (r: Option<SessionCommand>)
        ensures
            match r {
                Some(command) => old(self).deep_view().deferred.len() > 0 && command.deep_view()
                    == old(self).deep_view().deferred[0] && final(self).deep_view() == (
                SessionActorView {
                    deferred: old(self).deep_view().deferred.drop_first(),
                    ..old(self).deep_view()
                }),
                None => old(self).deep_view().deferred.len() == 0 && final(self).deep_view()
                    == old(self).deep_view(),
            },
    {
        let ghost before = self.deferred.deep_view();
        let r = self.deferred.pop_front();
        if let Some(command) = &r {
            assert(self.deferred.deep_view() =~= before.drop_first());
        } else {
            assert(self.deferred.deep_view() =~= before);
        }
        r
    }

    /// Begins a turn with a message of the user.
    pub fn handle_user_message(
        &mut self,
        tree: &mut SessionTree,
        content: String,
        turn_id: String,
    ) -> (r: (Vec<Effect>, ActorNext))
        ensures
            actor_moved(
                user_spoke(
                    old(self).deep_view(),
                    old(tree).deep_view(),
                    content@,
                    turn_id@,
                ),
                *final(self),
                *final(tree),
                r.0,
                r.1,
            ),
    {
        let mut effects: Vec<Effect> = Vec::new();
        assert(effects.deep_view() =~= Seq::empty());
        let ghost before = self.session.history.deep_view();
        let id = self.session.id;
        self.session.interrupted = false;
        tree.clear_active_wait(id);
        self.session.suspended_wait = None;
        self.session.state = SessionState::Streaming;
        self.session.current_turn_tool_rounds = 0;
        self.session.history.push(Message::user(content));
        assert(self.session.history.deep_view() =~= before.push(
            text_message(Role::User, content@),
        ));
        self.session.diagnostics = Some(MemoryDiagnostics::fresh());
        let ghost told = report_effects(self.session.deep_view(), None);
        let outputs = self.session.set_status_report(None);
        send_all(&mut effects, outputs);
        assert(effects.deep_view() =~= told);
        send_state(&mut effects, id, SessionState::Streaming);
        send(&mut effects, CoreOutput::TurnStarted { session_id: id, turn_id });
        (effects, ActorNext::RunTurn { stops: true })
    }

    /// Stops the session between turns.
    pub fn interrupt(&mut self, tree: &mut SessionTree) -> (r: (Vec<Effect>, ActorNext))
        ensures
            actor_moved(
                stopped(old(self).deep_view(), old(tree).deep_view()),
                *final(self),
                *final(tree),
                r.0,
                r.1,
            ),
    {
        let mut effects = self.stop(tree);
        send_state(&mut effects, self.session.id, SessionState::Idle);
        add_effect(&mut effects, Effect::Checkpoint);
        (effects, ActorNext::Continue)
    }

    /// Stops the session and the tool that may run.
    fn stop(&mut self, tree: &mut SessionTree) -> (effects: Vec<Effect>)
        ensures
            final(self).deep_view() == with_session(
                old(self).deep_view(),
                interrupted(old(self).deep_view().session),
            ),
            final(tree).deep_view() == without_wait(
                old(tree).deep_view(),
                old(self).deep_view().session.id,
            ),
            effects.deep_view() == stop_effects(old(self).deep_view().session),
    {
        let mut effects: Vec<Effect> = Vec::new();
        assert(effects.deep_view() =~= Seq::empty());
        tree.clear_active_wait(self.session.id);
        if self.session.interrupt() {
            add_effect(&mut effects, Effect::CancelTool);
            assert(effects.deep_view() =~= seq![EffectView::CancelTool]);
        }
        effects
    }

    /// Takes a signal between turns.
    pub fn handle_signal(&mut self, tree: &mut SessionTree, signal: SessionSignal) -> (r: (
        Vec<Effect>,
        ActorNext,
    ))
        ensures
            actor_moved(
                command_move(
                    old(self).deep_view(),
                    old(tree).deep_view(),
                    SessionCommandView::Signal(signal),
                ),
                *final(self),
                *final(tree),
                r.0,
                r.1,
            ),
    {
        if is_stop(signal) {
            return self.interrupt(tree);
        }
        let mut effects: Vec<Effect> = Vec::new();
        self.session.interrupted = false;
        if self.session.state == SessionState::Paused {
            self.session.state = SessionState::Idle;
        }
        send_state(&mut effects, self.session.id, self.session.state);
        assert(effects.deep_view() =~= seq![
            state_effect(self.session.id, self.session.state),
        ]);
        (effects, ActorNext::Continue)
    }

    /// Lets a session that waits go on.
    pub fn resume_from_wait(
        &mut self,
        tree: &SessionTree,
        explicit_result: Option<ToolOutcome>,
    ) -> (next: ActorNext)
        ensures
            final(self).deep_view() == woken(
                old(self).deep_view(),
                tree.deep_view(),
                explicit_result.deep_view(),
            ).actor,
            next.deep_view() == woken(
                old(self).deep_view(),
                tree.deep_view(),
                explicit_result.deep_view(),
            ).next,
    {
        let wait = match &self.session.suspended_wait {
            Some(wait) => wait.clone(),
            None => {
                return ActorNext::Continue;
            },
        };
        assert(self.deep_view().session.suspended_wait == Some(wait.deep_view()));
        let tool_use_id = wait.tool_use_id().to_owned();
        if let Some(result) = explicit_result {
            return pending_result(tool_use_id, &result, true);
        }
        match wait {
            SuspendedWait::Mailbox { source, .. } => {
                let result = match pop_mailbox_message(&mut self.session.mailbox, &source) {
                    Some(message) => ToolOutcome::Success { output: render_message(&message) },
                    None => ToolOutcome::Error {
                        message: "recv_message resumed without a matching message".to_owned(),
                    },
                };
                pending_result(tool_use_id, &result, true)
            },
            SuspendedWait::ChildExit { child_id, .. } => {
                match tree.exit_status(child_id) {
                    Some(status) => ActorNext::RenderExit(status),
                    None => {
                        let result = ToolOutcome::Error {
                            message: "wait_child resumed before child exit was recorded".to_owned(),
                        };
                        pending_result(tool_use_id, &result, true)
                    },
                }
            },
        }
    }

    /// Goes on with how a child ended, written out. A session that waits no more has nothing
    /// to go on with.
    pub fn resume_with_exit(&self, rendered: String) -> (next: ActorNext)
        ensures
            next.deep_view() == (match self.deep_view().session.suspended_wait {
                Some(wait) => pending(
                    wait.tool_use_id(),
                    ToolOutcomeView::Success { output: rendered@ },
                    true,
                ),
                None => ActorNextView::Continue,
            }),
    {
        match &self.session.suspended_wait {
            Some(wait) => {
                let tool_use_id = wait.tool_use_id().to_owned();
                pending_result(tool_use_id, &ToolOutcome::Success { output: rendered }, true)
            },
            None => ActorNext::Continue,
        }
    }

    /// Takes a message, and wakes the session if it waits for it.
    pub fn handle_mailbox_message(&mut self, tree: &SessionTree, message: MailboxMessage) -> (next:
        ActorNext)
        ensures
            final(self).deep_view() == message_came(
                old(self).deep_view(),
                tree.deep_view(),
                message.deep_view(),
            ).actor,
            next.deep_view() == message_came(
                old(self).deep_view(),
                tree.deep_view(),
                message.deep_view(),
            ).next,
            message_came(
                old(self).deep_view(),
                tree.deep_view(),
                message.deep_view(),
            ).effects.len() == 0,
    {
        let should_resume = match &self.session.suspended_wait {
            Some(SuspendedWait::Mailbox { source, .. }) => mailbox_matches_source(
                &message,
                source,
            ),
            _ => false,
        };
        let ghost before = self.session.mailbox.deep_view();
        self.session.mailbox.push_back(message);
        assert(self.session.mailbox.deep_view() =~= before.push(message.deep_view()));
        if should_resume {
            self.resume_from_wait(tree, None)
        } else {
            ActorNext::Continue
        }
    }

    /// Wakes the session if it waits for the child that has ended.
    pub fn handle_child_exited(&mut self, tree: &SessionTree, child_id: SessionId) -> (next:
        ActorNext)
        ensures
            final(self).deep_view() == child_ended(
                old(self).deep_view(),
                tree.deep_view(),
                child_id,
            ).actor,
            next.deep_view() == child_ended(
                old(self).deep_view(),
                tree.deep_view(),
                child_id,
            ).next,
    {
        let should_resume = match &self.session.suspended_wait {
            Some(SuspendedWait::ChildExit { child_id: awaited, .. }) => *awaited == child_id,
            _ => false,
        };
        if should_resume {
            self.resume_from_wait(tree, None)
        } else {
            ActorNext::Continue
        }
    }

    /// Takes a result from outside.
    pub fn handle_external_tool_result(
        &mut self,
        tree: &SessionTree,
        tool_use_id: String,
        result: ToolOutcome,
    ) -> (next: ActorNext)
        ensures
            final(self).deep_view() == result_came(
                old(self).deep_view(),
                tree.deep_view(),
                tool_use_id@,
                result.deep_view(),
            ).actor,
            next.deep_view() == result_came(
                old(self).deep_view(),
                tree.deep_view(),
                tool_use_id@,
                result.deep_view(),
            ).next,
    {
        if self.session.suspended_wait.is_some() {
            return self.resume_from_wait(tree, Some(result));
        }
        if self.session.state != SessionState::AwaitingToolResult {
            return ActorNext::Continue;
        }
        pending_result(tool_use_id, &result, false)
    }

    /// Refuses a request because of the state of the session.
    fn refuse_now(&self, reply: ReplyId, what: &str) -> (effects: Vec<Effect>)
        ensures
            effects.deep_view() == seq![
                EffectView::Reply {
                    to: reply,
                    reply: ReplyView::Refused(
                        what@ + state_text(self.deep_view().session.state),
                    ),
                },
            ],
    {
        let mut error = what.to_owned();
        error.append(self.session.state.name());
        let mut effects: Vec<Effect> = Vec::new();
        effects.push(Effect::Reply { to: reply, reply: Reply::Refused(error) });
        assert(effects.deep_view() =~= seq![
            EffectView::Reply { to: reply, reply: ReplyView::Refused(error@) },
        ]);
        effects
    }

    /// Hands out a message.
    fn query_mailbox(&mut self, source: &MessageSource, reply: ReplyId) -> (effects: Vec<Effect>)
        ensures
            final(self).deep_view() == with_session(
                old(self).deep_view(),
                SessionView {
                    mailbox: after_pop(old(self).deep_view().session.mailbox, *source),
                    ..old(self).deep_view().session
                },
            ),
            effects.deep_view() == seq![
                EffectView::Reply {
                    to: reply,
                    reply: ReplyView::Message(
                        popped(old(self).deep_view().session.mailbox, *source),
                    ),
                },
            ],
    {
        let message = pop_mailbox_message(&mut self.session.mailbox, source);
        let mut effects: Vec<Effect> = Vec::new();
        effects.push(Effect::Reply { to: reply, reply: Reply::Message(message) });
        assert(effects.deep_view() =~= seq![
            EffectView::Reply { to: reply, reply: ReplyView::Message(message.deep_view()) },
        ]);
        effects
    }

    /// Whether the session can be changed now.
    fn is_changeable(&self) -> (r: bool)
        ensures
            r == changeable(self.deep_view().session),
    {
        self.session.state == SessionState::Idle || self.session.state == SessionState::Paused
    }

    /// Takes a command between turns.
    #[verifier::rlimit(40)]
    pub fn handle_command(&mut self, tree: &mut SessionTree, command: SessionCommand) -> (r: (
        Vec<Effect>,
        ActorNext,
    ))
        ensures
            actor_moved(
                command_move(
                    old(self).deep_view(),
                    old(tree).deep_view(),
                    command.deep_view(),
                ),
                *final(self),
                *final(tree),
                r.0,
                r.1,
            ),
    {
        let mut effects: Vec<Effect> = Vec::new();
        assert(effects.deep_view() =~= Seq::empty());
        match command {
            SessionCommand::UserMessage { content, turn_id } => self.handle_user_message(
                tree,
                content,
                turn_id,
            ),
            SessionCommand::ExitPlanMode { reply } => {
                if self.is_changeable() {
                    (effects, ActorNext::ExitPlanMode { reply })
                } else {
                    let refusal = self.refuse_now(
                        reply,
                        "cannot exit plan mode while session is ",
                    );
                    (refusal, ActorNext::Continue)
                }
            },
            SessionCommand::UpdateSessionLlm { model_profile, max_context_window, reply } => {
                if self.is_changeable() {
                    (effects, ActorNext::UpdateLlm { model_profile, max_context_window, reply })
                } else {
                    let refusal = self.refuse_now(reply, "cannot switch model while session is ");
                    (refusal, ActorNext::Continue)
                }
            },
            SessionCommand::CompactSession { reply } => (effects, ActorNext::Compact { reply }),
            SessionCommand::ToolResult { tool_use_id, result } => {
                let next = self.handle_external_tool_result(tree, tool_use_id, result);
                (effects, next)
            },
            SessionCommand::InteractionResponse(_) => (effects, ActorNext::Continue),
            SessionCommand::Cancel => self.interrupt(tree),
            SessionCommand::Signal(signal) => self.handle_signal(tree, signal),
            SessionCommand::MailboxMessage(message) => {
                let next = self.handle_mailbox_message(tree, message);
                (effects, next)
            },
            SessionCommand::Snapshot { reply } => {
                add_effect(&mut effects, Effect::Snapshot { to: reply });
                assert(effects.deep_view() =~= seq![EffectView::Snapshot { to: reply }]);
                (effects, ActorNext::Continue)
            },
            SessionCommand::SessionMemoryRefreshFinished {
                last_summarized_message_index,
                refreshed_at,
                listing_summary,
            } => {
                self.session.finish_session_memory_refresh(
                    last_summarized_message_index,
                    refreshed_at,
                    listing_summary,
                );
                add_effect(&mut effects, Effect::Checkpoint);
                assert(effects.deep_view() =~= seq![EffectView::Checkpoint]);
                (effects, ActorNext::Continue)
            },
            SessionCommand::QueryMailbox { source, reply } => {
                let answer = self.query_mailbox(&source, reply);
                (answer, ActorNext::Continue)
            },
            SessionCommand::ChildExited { child_id, .. } => {
                let next = self.handle_child_exited(tree, child_id);
                (effects, next)
            },
            SessionCommand::Shutdown => (effects, ActorNext::Stop),
        }
    }

    /// Puts a command behind those that wait for the end of the turn.
    fn defer(&mut self, command: SessionCommand)
        ensures
            final(self).deep_view() == (SessionActorView {
                deferred: old(self).deep_view().deferred.push(command.deep_view()),
                ..old(self).deep_view()
            }),
    {
        let ghost before = self.deferred.deep_view();
        self.deferred.push_back(command);
        assert(self.deferred.deep_view() =~= before.push(command.deep_view()));
    }

    /// Takes a command during a turn. Returns whether it stops the turn.
    pub fn handle_control_command(&mut self, tree: &mut SessionTree, command: SessionCommand) -> (r:
        (Vec<Effect>, bool))
        ensures
            actor_moved(
                control_move(
                    old(self).deep_view(),
                    old(tree).deep_view(),
                    command.deep_view(),
                ),
                *final(self),
                *final(tree),
                r.0,
                ActorNext::Continue,
            ),
            r.1 == stops_turn(command.deep_view()),
    {
        let mut effects: Vec<Effect> = Vec::new();
        assert(effects.deep_view() =~= Seq::empty());
        match command {
            SessionCommand::Cancel => (self.stop(tree), true),
            SessionCommand::Signal(signal) => {
                if is_stop(signal) {
                    (self.stop(tree), true)
                } else {
                    (effects, false)
                }
            },
            SessionCommand::MailboxMessage(message) => {
                let ghost before = self.session.mailbox.deep_view();
                self.session.mailbox.push_back(message);
                assert(self.session.mailbox.deep_view() =~= before.push(message.deep_view()));
                (effects, false)
            },
            SessionCommand::ChildExited { .. } => (effects, false),
            SessionCommand::Snapshot { reply } => {
                add_effect(&mut effects, Effect::Snapshot { to: reply });
                assert(effects.deep_view() =~= seq![EffectView::Snapshot { to: reply }]);
                (effects, false)
            },
            SessionCommand::QueryMailbox { source, reply } => (
                self.query_mailbox(&source, reply),
                false,
            ),
            other => {
                self.defer(other);
                (effects, false)
            },
        }
    }

    /// Puts a result into the history and goes on with it, or tells that it could not be
    /// prepared.
    pub fn record_result(
        &mut self,
        tree: &mut SessionTree,
        result: PendingResult,
        prepared: Result<String, CoreError>,
    ) -> (r: (Vec<Effect>, ActorNext))
        ensures
            match prepared {
                Ok(output) => actor_moved(
                    result_recorded(
                        old(self).deep_view(),
                        old(tree).deep_view(),
                        result.deep_view(),
                        output@,
                    ),
                    *final(self),
                    *final(tree),
                    r.0,
                    r.1,
                ),
                Err(error) => actor_moved(
                    unmoved(
                        old(self).deep_view(),
                        old(tree).deep_view(),
                        seq![
                            EffectView::Output(
                                CoreOutputView::SessionError {
                                    session_id: old(self).deep_view().session.id,
                                    error: error.deep_view(),
                                },
                            ),
                        ],
                        ActorNextView::Continue,
                    ),
                    *final(self),
                    *final(tree),
                    r.0,
                    r.1,
                ),
            },
    {
        let mut effects: Vec<Effect> = Vec::new();
        assert(effects.deep_view() =~= Seq::empty());
        let id = self.session.id;
        match prepared {
            Err(error) => {
                send(&mut effects, CoreOutput::SessionError { session_id: id, error });
                assert(effects.deep_view() =~= seq![
                    EffectView::Output(
                        CoreOutputView::SessionError { session_id: id, error: error.deep_view() },
                    ),
                ]);
                (effects, ActorNext::Continue)
            },
            Ok(output) => {
                let ghost wanted = result_recorded(
                    self.deep_view(),
                    tree.deep_view(),
                    result.deep_view(),
                    output@,
                ).effects;
                if result.from_wait {
                    self.session.suspended_wait = None;
                    tree.clear_active_wait(id);
                }
                let ghost before = self.session.history.deep_view();
                self.session.history.push(
                    Message::tool_result(result.tool_use_id.clone(), output, result.is_error),
                );
                assert(self.session.history.deep_view() =~= before.push(
                    tool_result_message(result.tool_use_id@, output@, result.is_error),
                ));
                self.session.state = SessionState::Streaming;
                if result.from_wait {
                    send(
                        &mut effects,
                        CoreOutput::ToolResult {
                            session_id: id,
                            tool_use_id: result.tool_use_id,
                            tool_name: "suspended_wait".to_owned(),
                            content: result.output,
                            is_error: result.is_error,
                            duration_us: 0,
                        },
                    );
                }
                send_state(&mut effects, id, SessionState::Streaming);
                assert(effects.deep_view() =~= wanted);
                (effects, ActorNext::RunTurn { stops: false })
            },
        }
    }

    /// Ends a turn, and with it a session that has a parent.
    pub fn finish_turn(&mut self, tree: &SessionTree, outcome: TurnOutcome) -> (r: (
        Vec<Effect>,
        ActorNext,
    ))
        ensures
            actor_moved(
                turn_over(old(self).deep_view(), tree.deep_view(), outcome.deep_view()),
                *final(self),
                *tree,
                r.0,
                r.1,
            ),
    {
        let mut effects: Vec<Effect> = Vec::new();
        assert(effects.deep_view() =~= Seq::empty());
        let parent_id = match self.parent_id {
            Some(parent_id) => parent_id,
            None => {
                return (effects, ActorNext::Continue);
            },
        };
        let status = match outcome {
            TurnOutcome::Completed(answer) => {
                let output = match answer {
                    Some(text) => text,
                    None => match self.session.session_output() {
                        Some(text) => text,
                        None => {
                            let nothing = String::new();
                            assert(nothing@ =~= Seq::empty());
                            nothing
                        },
                    },
                };
                ExitStatus::Success { output }
            },
            TurnOutcome::Failed(error) => ExitStatus::Failed { error },
            TurnOutcome::Cancelled => ExitStatus::Cancelled,
            TurnOutcome::Suspended => {
                return (effects, ActorNext::Continue);
            },
        };
        self.session.state = SessionState::Destroyed;
        effects.push(
            Effect::ChildFinished { session_id: self.session.id, parent_id, status },
        );
        assert(effects.deep_view() =~= seq![
            EffectView::ChildFinished {
                session_id: self.session.id,
                parent_id,
                status: status.deep_view(),
            },
        ]);
        (effects, ActorNext::Stop)
    }

    /// What is done for a change of the session that was made.
    pub fn accept(reply: ReplyId) -> (effects: Vec<Effect>)
        ensures
            effects.deep_view() == seq![
                EffectView::Reply { to: reply, reply: ReplyView::Accepted },
                EffectView::Checkpoint,
            ],
    {
        let mut effects: Vec<Effect> = Vec::new();
        effects.push(Effect::Reply { to: reply, reply: Reply::Accepted });
        effects.push(Effect::Checkpoint);
        assert(effects.deep_view() =~= seq![
            EffectView::Reply { to: reply, reply: ReplyView::Accepted },
            EffectView::Checkpoint,
        ]);
        effects
    }
}

} // verus!
