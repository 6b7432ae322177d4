//! The run of one tool: permission, the tools that the session itself carries out, and the
//! tools that the host runs.
//!
//! [`ToolRun`] decides. The host does what [`ToolRunAction`] says, and hands the result back
//! as a [`ToolRunEvent`].

use vstd::prelude::*;
use vstd::string::*;

use crate::channel::{
    CoreOutput, CoreOutputView, InteractionRequest, InteractionRequestView, MessageSource,
    ToolOutcome, ToolOutcomeView,
};
use crate::context::{Session, SessionView};
use crate::effect::{add_effect, send, send_state, state_effect, Effect, EffectView};
use crate::filesystem::OverlayFilesystem;
use crate::message::{PendingToolCall, PendingToolCallView};
use crate::permissions::{
    build_permission_request, local_decision, resource_of, scope_of, PermissionOutcome,
    PermissionOutcomeView, PermissionRequest, PermissionRequestView, PermissionVerdict, PermissionVerdictView, ToolLocalDecision, ToolLocalDecisionView,
};
use crate::session::{
    debug_id_text, named_session, parse_session_id, ExitStatus, ExitStatusView, SessionId,
    SessionState,
};
use crate::session_tree::{
    acyclic, deadlock_text, law_waits_stay_acyclic, waits_after, SessionTree, SessionTreeView,
};
use crate::table::entry;
use crate::text;
use crate::tools::{
    find_tool, registered, returned_outcome, tool_outcome, ToolReturn, ToolReturnView,
};
use crate::turn::Host;
use crate::wait::{
    after_pop, message_json, pop_mailbox_message, popped, reaches, render_message,
    wait_closes_cycle, SuspendedWait, SuspendedWaitView,
};

verus! {

broadcast use vstd::seq::group_seq_axioms;

/// What a user says when asked for permission.
#[derive(Clone, Copy, Debug, PartialEq, Eq, Structural)]
pub enum ApprovalChoice {
    ApproveOnce,
    DenyOnce,
}

impl DeepView for ApprovalChoice {
    type V = ApprovalChoice;

    open spec fn deep_view(&self) -> ApprovalChoice {
        *self
    }
}

/// What the run of a tool waits for.
#[derive(Clone, Copy, Debug, PartialEq, Eq, Structural)]
pub enum ToolRunPhase {
    /// The verdict of the permission rules.
    Checking,
    /// The permission of the user.
    Approving,
    /// A new session.
    Spawning,
    /// The text of an exit status.
    Rendering,
    /// The tool.
    Executing,
    /// An answer of the user to the tool.
    Asking,
    /// Nothing: it is over.
    Over,
}

impl DeepView for ToolRunPhase {
    type V = ToolRunPhase;

    open spec fn deep_view(&self) -> ToolRunPhase {
        *self
    }
}

/// What the host of a tool has to do next.
#[derive(Debug)]
pub enum ToolRunAction {
    CheckPermission { request: PermissionRequest, local: Option<ToolLocalDecision> },
    AwaitApproval,
    Spawn { task: String, system_prompt: Option<String> },
    RenderExit(ExitStatus),
    /// Start the tool.
    Execute { interactive: bool },
    /// Let the tool run on.
    AwaitTool,
    AwaitAnswer,
    Finished(ToolOutcome),
}

/// The model of [`ToolRunAction`].
#[verifier::ext_equal]
pub enum ToolRunActionView {
    CheckPermission { request: PermissionRequestView, local: Option<ToolLocalDecisionView> },
    AwaitApproval,
    Spawn { task: Seq<char>, system_prompt: Option<Seq<char>> },
    RenderExit(ExitStatusView),
    Execute { interactive: bool },
    AwaitTool,
    AwaitAnswer,
    Finished(ToolOutcomeView),
}

impl DeepView for ToolRunAction {
    type V = ToolRunActionView;

    open spec fn deep_view(&self) -> ToolRunActionView {
        match *self {
            ToolRunAction::CheckPermission {
                request,
                local,
            } => ToolRunActionView::CheckPermission {
                request: request.deep_view(),
                local: local.deep_view(),
            },
            ToolRunAction::AwaitApproval => ToolRunActionView::AwaitApproval,
            ToolRunAction::Spawn { task, system_prompt } => ToolRunActionView::Spawn {
                task: task.deep_view(),
                system_prompt: system_prompt.deep_view(),
            },
            ToolRunAction::RenderExit(value) => ToolRunActionView::RenderExit(value.deep_view()),
            ToolRunAction::Execute { interactive } => ToolRunActionView::Execute { interactive },
            ToolRunAction::AwaitTool => ToolRunActionView::AwaitTool,
            ToolRunAction::AwaitAnswer => ToolRunActionView::AwaitAnswer,
            ToolRunAction::Finished(value) => ToolRunActionView::Finished(value.deep_view()),
        }
    }
}

/// What came of an action, or came in between.
#[derive(Debug)]
pub enum ToolRunEvent {
    Permission(PermissionVerdict),
    /// What the user said, if it could be understood.
    Answer(Option<ApprovalChoice>),
    /// The session was stopped.
    Interrupted,
    /// There is nobody left who could answer or stop the session.
    Closed,
    Spawned(SessionId),
    SpawnFailed(String),
    Rendered(String),
    /// The tool has ended.
    Returned(ToolReturn),
    /// The tool asks the user.
    Requested(InteractionRequest),
    /// The answer was handed to the tool.
    Answered,
}

/// The model of [`ToolRunEvent`].
#[verifier::ext_equal]
pub enum ToolRunEventView {
    Permission(PermissionVerdictView),
    Answer(Option<ApprovalChoice>),
    Interrupted,
    Closed,
    Spawned(SessionId),
    SpawnFailed(Seq<char>),
    Rendered(Seq<char>),
    Returned(ToolReturnView),
    Requested(InteractionRequestView),
    Answered,
}

impl DeepView for ToolRunEvent {
    type V = ToolRunEventView;

    open spec fn deep_view(&self) -> ToolRunEventView {
        match *self {
            ToolRunEvent::Permission(value) => ToolRunEventView::Permission(value.deep_view()),
            ToolRunEvent::Answer(value) => ToolRunEventView::Answer(value),
            ToolRunEvent::Interrupted => ToolRunEventView::Interrupted,
            ToolRunEvent::Closed => ToolRunEventView::Closed,
            ToolRunEvent::Spawned(value) => ToolRunEventView::Spawned(value),
            ToolRunEvent::SpawnFailed(value) => ToolRunEventView::SpawnFailed(value.deep_view()),
            ToolRunEvent::Rendered(value) => ToolRunEventView::Rendered(value.deep_view()),
            ToolRunEvent::Returned(value) => ToolRunEventView::Returned(value.deep_view()),
            ToolRunEvent::Requested(value) => ToolRunEventView::Requested(value.deep_view()),
            ToolRunEvent::Answered => ToolRunEventView::Answered,
        }
    }
}

/// The run of a tool.
#[derive(Debug)]
pub struct ToolRun {
    pub host: Host,
    pub phase: ToolRunPhase,
    pub call: PendingToolCall,
    /// Why permission is needed.
    pub reason: String,
    pub interactive: bool,
}

/// The model of [`ToolRun`].
#[verifier::ext_equal]
pub struct ToolRunView {
    pub host: Host,
    pub phase: ToolRunPhase,
    pub call: PendingToolCallView,
    pub reason: Seq<char>,
    pub interactive: bool,
}

impl DeepView for ToolRun {
    type V = ToolRunView;

    open spec fn deep_view(&self) -> ToolRunView {
        ToolRunView {
            host: self.host,
            phase: self.phase,
            call: self.call.deep_view(),
            reason: self.reason.deep_view(),
            interactive: self.interactive,
        }
    }
}

/// The run of a tool, its session, the tree of sessions, what has to be done for them, and
/// what comes next.
#[verifier::ext_equal]
pub struct ToolMove {
    pub run: ToolRunView,
    pub session: SessionView,
    pub tree: SessionTreeView,
    pub effects: Seq<EffectView>,
    pub action: ToolRunActionView,
}

/// A run that is over.
pub open spec fn tool_over(
    run: ToolRunView,
    session: SessionView,
    tree: SessionTreeView,
    effects: Seq<EffectView>,
    outcome: ToolOutcomeView,
) -> ToolMove {
    ToolMove {
        run: ToolRunView { phase: ToolRunPhase::Over, ..run },
        session,
        tree,
        effects,
        action: ToolRunActionView::Finished(outcome),
    }
}

/// A session without a tool that could be told to stop.
pub open spec fn disarmed(session: SessionView) -> SessionView {
    SessionView { cancel_armed: false, ..session }
}

/// A run that ends with an error.
pub open spec fn tool_error(
    run: ToolRunView,
    session: SessionView,
    tree: SessionTreeView,
    effects: Seq<EffectView>,
    message: Seq<char>,
) -> ToolMove {
    tool_over(run, disarmed(session), tree, effects, ToolOutcomeView::Error { message })
}

/// A run that ends with an output.
pub open spec fn tool_success(
    run: ToolRunView,
    session: SessionView,
    tree: SessionTreeView,
    effects: Seq<EffectView>,
    output: Seq<char>,
) -> ToolMove {
    tool_over(run, disarmed(session), tree, effects, ToolOutcomeView::Success { output })
}

/// How a denial reads.
pub open spec fn denial(reason: Seq<char>) -> Seq<char> {
    "permission denied: "@ + reason
}

/// The start of a run. A session that was stopped runs no tool, and an unknown tool is an
/// error.
pub open spec fn tool_begun(
    host: Host,
    session: SessionView,
    tree: SessionTreeView,
    call: PendingToolCallView,
    filesystem: OverlayFilesystem,
) -> ToolMove {
    let run = ToolRunView {
        host,
        phase: ToolRunPhase::Checking,
        call,
        reason: Seq::empty(),
        interactive: false,
    };
    let armed = SessionView { cancel_armed: true, ..session };
    if session.interrupted {
        tool_over(run, session, tree, Seq::empty(), ToolOutcomeView::Cancelled)
    } else {
        match registered(session.registry, call.tool_name) {
            None => tool_over(
                run,
                armed,
                tree,
                Seq::empty(),
                ToolOutcomeView::Error { message: "unknown tool: "@ + call.tool_name },
            ),
            Some(tool) => ToolMove {
                run: ToolRunView { interactive: tool.interactive, ..run },
                session: armed,
                tree,
                effects: Seq::empty(),
                action: ToolRunActionView::CheckPermission {
                    request: PermissionRequestView {
                        tool_name: call.tool_name,
                        action: None,
                        scope: scope_of(call.tool_name, tool.read_only),
                        resource: resource_of(
                            filesystem,
                            session.config.working_directory,
                            call,
                        ),
                    },
                    local: local_decision(call),
                },
            },
        }
    }
}

/// The user is asked for permission. The two hosts tell of it in different orders.
pub open spec fn approval_asked(
    run: ToolRunView,
    session: SessionView,
    tree: SessionTreeView,
    request: InteractionRequestView,
    reason: Seq<char>,
) -> ToolMove {
    let paused = state_effect(session.id, SessionState::Paused);
    let question = EffectView::Output(
        CoreOutputView::InteractionNeeded { session_id: session.id, request },
    );
    ToolMove {
        run: ToolRunView { phase: ToolRunPhase::Approving, reason, ..run },
        session: SessionView {
            state: SessionState::Paused,
            approval_pending: true,
            ..session
        },
        tree,
        effects: match run.host {
            Host::Actor => seq![question, paused],
            Host::Core => seq![paused, question],
        },
        action: ToolRunActionView::AwaitApproval,
    }
}

/// When a wait that begins now is given up.
pub open spec fn deadline(now_ms: u64, timeout_ms: Option<u64>) -> Option<u128> {
    match timeout_ms {
        Some(timeout) => Some((now_ms + timeout) as u128),
        None => None,
    }
}

/// A session that waits. The turn is suspended.
pub open spec fn suspended(
    run: ToolRunView,
    session: SessionView,
    tree: SessionTreeView,
    effects: Seq<EffectView>,
    wait: SuspendedWaitView,
) -> ToolMove {
    tool_over(
        run,
        SessionView {
            state: SessionState::Waiting,
            suspended_wait: Some(wait),
            ..disarmed(session)
        },
        tree,
        effects.push(state_effect(session.id, SessionState::Waiting)).push(EffectView::Checkpoint),
        ToolOutcomeView::Cancelled,
    )
}

/// A tree in which a wait was asked for.
pub open spec fn with_wait(
    tree: SessionTreeView,
    waiter: SessionId,
    dependency: SessionId,
) -> SessionTreeView {
    SessionTreeView { waits: waits_after(tree.waits, waiter, dependency), ..tree }
}

/// Whether a call says that it does not want to wait.
pub open spec fn wants_no_wait(call: PendingToolCallView) -> bool {
    call.arguments.flag("non_blocking"@) == Some(true)
}

/// How a wait for a child reads that would never end.
pub open spec fn child_deadlock_text(child_id: SessionId) -> Seq<char> {
    "deadlock detected: waiting for child "@ + debug_id_text(child_id)
        + " would create a wait cycle"@
}

/// Waiting for the end of a child. One that has ended is reported at once. The core reports
/// nothing for a session that is no child, and looks for cycles among the waits of its
/// sessions too.
pub open spec fn waited_for_child(
    run: ToolRunView,
    session: SessionView,
    tree: SessionTreeView,
    edges: Seq<(SessionId, SessionId)>,
    now_ms: u64,
    effects: Seq<EffectView>,
) -> ToolMove {
    match run.call.arguments.text("child_id"@) {
        None => tool_error(
            run,
            session,
            tree,
            effects,
            "invalid arguments: missing required parameter: child_id"@,
        ),
        Some(written) => match named_session(written) {
            None => tool_error(
                run,
                session,
                tree,
                effects,
                "invalid arguments: invalid child_id: "@ + written,
            ),
            Some(child_id) => {
                let is_child = entry(tree.parents, child_id) == Some(session.id);
                let exit = entry(tree.exits, child_id);
                let wait = SuspendedWaitView::ChildExit {
                    tool_use_id: run.call.tool_use_id,
                    child_id,
                    timeout_at: deadline(now_ms, run.call.arguments.count("timeout_ms"@)),
                };
                if is_child && exit is Some {
                    ToolMove {
                        run: ToolRunView { phase: ToolRunPhase::Rendering, ..run },
                        session: disarmed(session),
                        tree,
                        effects,
                        action: ToolRunActionView::RenderExit(exit->0),
                    }
                } else if wants_no_wait(run.call) || (run.host == Host::Core && !is_child) {
                    tool_success(run, session, tree, effects, "null"@)
                } else if run.host == Host::Core && (reaches(edges, child_id, session.id)
                    || reaches(tree.waits, child_id, session.id)) {
                    tool_error(run, session, tree, effects, child_deadlock_text(child_id))
                } else if reaches(tree.waits, child_id, session.id) {
                    tool_error(run, session, tree, effects, deadlock_text(child_id))
                } else {
                    suspended(
                        run,
                        session,
                        with_wait(tree, session.id, child_id),
                        effects,
                        wait,
                    )
                }
            },
        },
    }
}

/// Whose messages a text asks for.
pub open spec fn named_source(written: Seq<char>) -> Option<MessageSource> {
    if written == "any"@ {
        Some(MessageSource::Any)
    } else {
        match named_session(written) {
            Some(id) => Some(MessageSource::Session(id)),
            None => None,
        }
    }
}

/// Receiving a message. One that is there is handed over at once. The core looks for cycles
/// among the waits of its sessions, an actor in the tree, where it also notes its wait.
pub open spec fn message_received(
    run: ToolRunView,
    session: SessionView,
    tree: SessionTreeView,
    edges: Seq<(SessionId, SessionId)>,
    now_ms: u64,
    effects: Seq<EffectView>,
) -> ToolMove {
    match run.call.arguments.text("source"@) {
        None => tool_error(
            run,
            session,
            tree,
            effects,
            "invalid arguments: missing required parameter: source"@,
        ),
        Some(written) => match named_source(written) {
            None => tool_error(
                run,
                session,
                tree,
                effects,
                "invalid arguments: invalid source session_id: "@ + written,
            ),
            Some(source) => {
                let wait = SuspendedWaitView::Mailbox {
                    tool_use_id: run.call.tool_use_id,
                    source,
                    timeout_at: deadline(now_ms, run.call.arguments.count("timeout_ms"@)),
                };
                match popped(session.mailbox, source) {
                    Some(message) => tool_success(
                        run,
                        SessionView { mailbox: after_pop(session.mailbox, source), ..session },
                        tree,
                        effects,
                        message_json(message),
                    ),
                    None => if wants_no_wait(run.call) {
                        tool_success(run, session, tree, effects, "null"@)
                    } else {
                        match source {
                            MessageSource::Any => suspended(run, session, tree, effects, wait),
                            MessageSource::Session(id) => {
                                let waits = match run.host {
                                    Host::Actor => tree.waits,
                                    Host::Core => edges,
                                };
                                if reaches(waits, id, session.id) {
                                    tool_error(run, session, tree, effects, deadlock_text(id))
                                } else {
                                    suspended(
                                        run,
                                        session,
                                        match run.host {
                                            Host::Actor => with_wait(tree, session.id, id),
                                            Host::Core => tree,
                                        },
                                        effects,
                                        wait,
                                    )
                                }
                            },
                        }
                    },
                }
            },
        },
    }
}

/// Making a session, which the core does itself.
pub open spec fn spawn_asked(
    run: ToolRunView,
    session: SessionView,
    tree: SessionTreeView,
    effects: Seq<EffectView>,
) -> ToolMove {
    match run.call.arguments.text("task"@) {
        None => tool_error(
            run,
            session,
            tree,
            effects,
            "invalid arguments: missing required parameter: task"@,
        ),
        Some(task) => ToolMove {
            run: ToolRunView { phase: ToolRunPhase::Spawning, ..run },
            session,
            tree,
            effects,
            action: ToolRunActionView::Spawn {
                task,
                system_prompt: run.call.arguments.text("system_prompt"@),
            },
        },
    }
}

/// A call that is permitted is carried out.
pub open spec fn carried_out(
    run: ToolRunView,
    session: SessionView,
    tree: SessionTreeView,
    edges: Seq<(SessionId, SessionId)>,
    now_ms: u64,
    effects: Seq<EffectView>,
) -> ToolMove {
    if run.host == Host::Core && run.call.tool_name == "spawn"@ {
        spawn_asked(run, session, tree, effects)
    } else if run.call.tool_name == "wait_child"@ {
        waited_for_child(run, session, tree, edges, now_ms, effects)
    } else if run.call.tool_name == "recv_message"@ {
        message_received(run, session, tree, edges, now_ms, effects)
    } else {
        ToolMove {
            run: ToolRunView { phase: ToolRunPhase::Executing, ..run },
            session,
            tree,
            effects,
            action: ToolRunActionView::Execute { interactive: run.interactive },
        }
    }
}

/// A session that keeps what the rules said of a call.
pub open spec fn judged_session(
    session: SessionView,
    call: PendingToolCallView,
    verdict: PermissionVerdictView,
) -> SessionView {
    SessionView {
        last_permission: Some(PermissionOutcomeView { tool_name: call.tool_name, verdict }),
        ..session
    }
}

/// The rules have spoken.
pub open spec fn after_verdict(
    run: ToolRunView,
    session: SessionView,
    tree: SessionTreeView,
    edges: Seq<(SessionId, SessionId)>,
    now_ms: u64,
    verdict: PermissionVerdictView,
) -> ToolMove {
    let noting = judged_session(session, run.call, verdict);
    match verdict {
        PermissionVerdictView::Allowed => carried_out(
            run,
            noting,
            tree,
            edges,
            now_ms,
            Seq::empty(),
        ),
        PermissionVerdictView::NeedsApproval { request, reason } => approval_asked(
            run,
            noting,
            tree,
            request,
            reason,
        ),
        PermissionVerdictView::Denied { reason } => tool_error(
            run,
            noting,
            tree,
            Seq::empty(),
            denial(reason),
        ),
    }
}

/// A session that goes on after the user was asked.
pub open spec fn resumed(session: SessionView) -> SessionView {
    SessionView { state: SessionState::Streaming, approval_pending: false, ..session }
}

/// The user has spoken. What an actor cannot understand it leaves aside; to the core it is a
/// denial.
pub open spec fn after_answer(
    run: ToolRunView,
    session: SessionView,
    tree: SessionTreeView,
    edges: Seq<(SessionId, SessionId)>,
    now_ms: u64,
    choice: Option<ApprovalChoice>,
) -> ToolMove {
    let effects = seq![state_effect(session.id, SessionState::Streaming)];
    match choice {
        Some(ApprovalChoice::ApproveOnce) => carried_out(
            run,
            resumed(session),
            tree,
            edges,
            now_ms,
            effects,
        ),
        Some(ApprovalChoice::DenyOnce) => tool_error(
            run,
            resumed(session),
            tree,
            effects,
            denial(run.reason),
        ),
        None => match run.host {
            Host::Core => tool_error(run, resumed(session), tree, effects, denial(run.reason)),
            Host::Actor => ToolMove {
                run,
                session,
                tree,
                effects: Seq::empty(),
                action: ToolRunActionView::AwaitApproval,
            },
        },
    }
}

/// A tool that ran has ended: it is told to stop, in case it has not.
pub open spec fn tool_ended(
    run: ToolRunView,
    session: SessionView,
    tree: SessionTreeView,
    outcome: ToolOutcomeView,
) -> ToolMove {
    tool_over(
        run,
        disarmed(session),
        tree,
        if session.cancel_armed {
            seq![EffectView::CancelTool]
        } else {
            Seq::empty()
        },
        outcome,
    )
}

/// The session was stopped.
pub open spec fn after_interrupt(
    run: ToolRunView,
    session: SessionView,
    tree: SessionTreeView,
) -> ToolMove {
    if run.phase == ToolRunPhase::Approving {
        tool_over(
            run,
            disarmed(session),
            tree,
            match run.host {
                Host::Actor => Seq::empty(),
                Host::Core => seq![state_effect(session.id, SessionState::Streaming)],
            },
            ToolOutcomeView::Cancelled,
        )
    } else {
        tool_ended(run, session, tree, ToolOutcomeView::Cancelled)
    }
}

/// There is nobody left who could answer or stop the session.
pub open spec fn after_close(
    run: ToolRunView,
    session: SessionView,
    tree: SessionTreeView,
) -> ToolMove {
    if run.phase == ToolRunPhase::Approving {
        match run.host {
            Host::Actor => tool_error(run, session, tree, Seq::empty(), "input channel closed"@),
            Host::Core => tool_error(
                run,
                resumed(session),
                tree,
                seq![state_effect(session.id, SessionState::Streaming)],
                denial(run.reason + "; approval response channel closed"@),
            ),
        }
    } else {
        tool_ended(
            run,
            session,
            tree,
            ToolOutcomeView::Error {
                message: if run.phase == ToolRunPhase::Executing && run.host == Host::Actor {
                    if run.interactive {
                        "input channel closed during interactive execution"@
                    } else {
                        "input channel closed during execution"@
                    }
                } else {
                    "input channel closed"@
                },
            },
        )
    }
}

/// What an event does to the run of a tool, its session and the tree of sessions.
pub open spec fn tool_move(
    run: ToolRunView,
    session: SessionView,
    tree: SessionTreeView,
    edges: Seq<(SessionId, SessionId)>,
    now_ms: u64,
    event: ToolRunEventView,
) -> ToolMove {
    match event {
        ToolRunEventView::Permission(verdict) => after_verdict(
            run,
            session,
            tree,
            edges,
            now_ms,
            verdict,
        ),
        ToolRunEventView::Answer(choice) => after_answer(
            run,
            session,
            tree,
            edges,
            now_ms,
            choice,
        ),
        ToolRunEventView::Interrupted => after_interrupt(run, session, tree),
        ToolRunEventView::Closed => after_close(run, session, tree),
        ToolRunEventView::Spawned(child_id) => tool_success(
            run,
            session,
            tree,
            Seq::empty(),
            debug_id_text(child_id),
        ),
        ToolRunEventView::SpawnFailed(error) => tool_error(
            run,
            session,
            tree,
            Seq::empty(),
            "failed to spawn: "@ + error,
        ),
        ToolRunEventView::Rendered(output) => tool_success(
            run,
            session,
            tree,
            Seq::empty(),
            output,
        ),
        ToolRunEventView::Returned(returned) => tool_ended(
            run,
            session,
            tree,
            returned_outcome(returned),
        ),
        ToolRunEventView::Requested(request) => ToolMove {
            run: ToolRunView { phase: ToolRunPhase::Asking, ..run },
            session,
            tree,
            effects: seq![
                EffectView::Output(
                    CoreOutputView::InteractionNeeded { session_id: session.id, request },
                ),
            ],
            action: ToolRunActionView::AwaitAnswer,
        },
        ToolRunEventView::Answered => ToolMove {
            run: ToolRunView { phase: ToolRunPhase::Executing, ..run },
            session,
            tree,
            effects: Seq::empty(),
            action: ToolRunActionView::AwaitTool,
        },
    }
}

/// Whether an event is one that the run of a tool waits for.
pub open spec fn tool_awaits(run: ToolRunView, event: ToolRunEventView) -> bool {
    match event {
        ToolRunEventView::Permission(_) => run.phase == ToolRunPhase::Checking,
        ToolRunEventView::Answer(_) => run.phase == ToolRunPhase::Approving,
        ToolRunEventView::Interrupted | ToolRunEventView::Closed => run.phase
            == ToolRunPhase::Approving || run.phase == ToolRunPhase::Executing || run.phase
            == ToolRunPhase::Asking,
        ToolRunEventView::Spawned(_) | ToolRunEventView::SpawnFailed(_) => run.phase
            == ToolRunPhase::Spawning,
        ToolRunEventView::Rendered(_) => run.phase == ToolRunPhase::Rendering,
        ToolRunEventView::Returned(_) | ToolRunEventView::Requested(_) => run.phase
            == ToolRunPhase::Executing,
        ToolRunEventView::Answered => run.phase == ToolRunPhase::Asking,
    }
}

/// No tool is started, and no session is made, without permission: only when the rules or
/// the user allow it.
pub proof fn law_nothing_runs_without_permission(
    run: ToolRunView,
    session: SessionView,
    tree: SessionTreeView,
    edges: Seq<(SessionId, SessionId)>,
    now_ms: u64,
    event: ToolRunEventView,
)
    requires
        tool_awaits(run, event),
    ensures
        tool_move(run, session, tree, edges, now_ms, event).action is Execute || tool_move(
            run,
            session,
            tree,
            edges,
            now_ms,
            event,
        ).action is Spawn ==> event == ToolRunEventView::Permission(PermissionVerdictView::Allowed)
            || event == ToolRunEventView::Answer(Some(ApprovalChoice::ApproveOnce)),
        event matches ToolRunEventView::Permission(PermissionVerdictView::Denied { reason })
            ==> tool_move(run, session, tree, edges, now_ms, event).action
            == ToolRunActionView::Finished(ToolOutcomeView::Error { message: denial(reason) }),
        event == ToolRunEventView::Answer(Some(ApprovalChoice::DenyOnce)) ==> tool_move(
            run,
            session,
            tree,
            edges,
            now_ms,
            event,
        ).action == ToolRunActionView::Finished(
            ToolOutcomeView::Error { message: denial(run.reason) },
        ),
{
}

/// What the rules said of a call is kept with its session before anything is done about it,
/// and stays there until they speak of the next call.
pub proof fn law_verdict_is_kept(
    run: ToolRunView,
    session: SessionView,
    tree: SessionTreeView,
    edges: Seq<(SessionId, SessionId)>,
    now_ms: u64,
    event: ToolRunEventView,
)
    requires
        tool_awaits(run, event),
    ensures
        tool_move(run, session, tree, edges, now_ms, event).session.last_permission == (
        match event {
            ToolRunEventView::Permission(verdict) => Some(
                PermissionOutcomeView { tool_name: run.call.tool_name, verdict },
            ),
            _ => session.last_permission,
        }),
{
}

/// A run that ends leaves nothing behind that could be told to stop.
pub proof fn law_ended_tool_is_disarmed(
    run: ToolRunView,
    session: SessionView,
    tree: SessionTreeView,
    edges: Seq<(SessionId, SessionId)>,
    now_ms: u64,
    event: ToolRunEventView,
)
    requires
        tool_awaits(run, event),
    ensures
        tool_move(run, session, tree, edges, now_ms, event).action is Finished ==> !tool_move(
            run,
            session,
            tree,
            edges,
            now_ms,
            event,
        ).session.cancel_armed,
        tool_move(run, session, tree, edges, now_ms, event).action is Finished <==> tool_move(
            run,
            session,
            tree,
            edges,
            now_ms,
            event,
        ).run.phase == ToolRunPhase::Over,
{
}

/// No run of a tool lets sessions wait for each other in a circle.
pub proof fn law_tools_keep_waits_acyclic(
    run: ToolRunView,
    session: SessionView,
    tree: SessionTreeView,
    edges: Seq<(SessionId, SessionId)>,
    now_ms: u64,
    event: ToolRunEventView,
)
    requires
        acyclic(tree.waits),
    ensures
        acyclic(tool_move(run, session, tree, edges, now_ms, event).tree.waits),
{
    let after = tool_move(run, session, tree, edges, now_ms, event).tree;
    if let Some(written) = run.call.arguments.text("child_id"@) {
        if let Some(child_id) = named_session(written) {
            law_waits_stay_acyclic(tree.waits, session.id, child_id);
        }
    }
    if let Some(written) = run.call.arguments.text("source"@) {
        if let Some(id) = named_session(written) {
            law_waits_stay_acyclic(tree.waits, session.id, id);
        }
    }
}

/// A session is suspended by a tool exactly with a wait for what the call asked for, and
/// then it is in the waiting state.
pub proof fn law_suspension(
    run: ToolRunView,
    session: SessionView,
    tree: SessionTreeView,
    edges: Seq<(SessionId, SessionId)>,
    now_ms: u64,
    event: ToolRunEventView,
)
    requires
        tool_awaits(run, event),
        session.suspended_wait is None,
    ensures
        tool_move(run, session, tree, edges, now_ms, event).session.suspended_wait matches Some(
            wait,
        ) ==> {
            let after = tool_move(run, session, tree, edges, now_ms, event);
            &&& after.action == ToolRunActionView::Finished(ToolOutcomeView::Cancelled)
            &&& after.session.state == SessionState::Waiting
            &&& wait.tool_use_id() == run.call.tool_use_id
            &&& wait is ChildExit <==> run.call.tool_name == "wait_child"@
        },
{
    let after = tool_move(run, session, tree, edges, now_ms, event);
    assert("wait_child"@ != "recv_message"@) by {
        reveal_strlit("wait_child");
        reveal_strlit("recv_message");
        assert("wait_child"@.len() != "recv_message"@.len());
    }
}

/// Whether the run of a tool, its session, the tree, the effects and the action are those of
/// a move.
pub open spec fn tool_moved(
    expected: ToolMove,
    run: ToolRun,
    session: Session,
    tree: SessionTree,
    effects: Vec<Effect>,
    action: ToolRunAction,
) -> bool {
    &&& run.deep_view() == expected.run
    &&& session.deep_view() == expected.session
    &&& tree.deep_view() == expected.tree
    &&& effects.deep_view() == expected.effects
    &&& action.deep_view() == expected.action
}

/// Two texts in a row.
fn joined_text(first: &str, second: &str) -> (r: String)
    ensures
        r@ == first@ + second@,
{
    let mut r = first.to_owned();
    r.append(second);
    r
}

/// When a wait that begins now is given up.
fn deadline_from(now_ms: u64, timeout_ms: Option<u64>) -> (r: Option<u128>)
    ensures
        r == deadline(now_ms, timeout_ms),
{
    match timeout_ms {
        Some(timeout) => Some(now_ms as u128 + timeout as u128),
        None => None,
    }
}

/// Whose messages a text asks for.
fn parse_source(written: &str) -> (r: Option<MessageSource>)
    ensures
        r == named_source(written@),
{
    if text::same(written, "any") {
        Some(MessageSource::Any)
    } else {
        match parse_session_id(written) {
            Some(id) => Some(MessageSource::Session(id)),
            None => None,
        }
    }
}

impl ToolRun {
    /// Starts the run of a tool.
    pub fn begin(
        host: Host,
        session: &mut Session,
        tree: &SessionTree,
        call: PendingToolCall,
        filesystem: &OverlayFilesystem,
    ) -> (r: (ToolRun, ToolRunAction))
        ensures
            ({
                let expected = tool_begun(
                    host,
                    old(session).deep_view(),
                    tree.deep_view(),
                    call.deep_view(),
                    *filesystem,
                );
                &&& expected.effects.len() == 0
                &&& r.0.deep_view() == expected.run
                &&& final(session).deep_view() == expected.session
                &&& r.1.deep_view() == expected.action
            }),
    {
        let mut run = ToolRun {
            host,
            phase: ToolRunPhase::Checking,
            call,
            reason: String::new(),
            interactive: false,
        };
        assert(run.reason@ =~= Seq::empty());
        if session.interrupted {
            run.phase = ToolRunPhase::Over;
            return (run, ToolRunAction::Finished(ToolOutcome::Cancelled));
        }
        session.cancel_armed = true;
        let (interactive, read_only) = match find_tool(
            &session.registry,
            run.call.tool_name.as_str(),
        ) {
            Some(tool) => (tool.interactive, tool.read_only),
            None => {
                run.phase = ToolRunPhase::Over;
                let message = joined_text("unknown tool: ", run.call.tool_name.as_str());
                return (run, ToolRunAction::Finished(ToolOutcome::Error { message }));
            },
        };
        run.interactive = interactive;
        let (request, local) = build_permission_request(
            filesystem,
            session.config.working_directory.as_str(),
            &run.call,
            read_only,
        );
        (run, ToolRunAction::CheckPermission { request, local })
    }

    /// Ends the run with an error.
    fn refuse(&mut self, session: &mut Session, message: String) -> (action: ToolRunAction)
        ensures
            final(self).deep_view() == (ToolRunView {
                phase: ToolRunPhase::Over,
                ..old(self).deep_view()
            }),
            final(session).deep_view() == disarmed(old(session).deep_view()),
            action.deep_view() == ToolRunActionView::Finished(
                ToolOutcomeView::Error { message: message@ },
            ),
    {
        session.cancel_armed = false;
        self.phase = ToolRunPhase::Over;
        ToolRunAction::Finished(ToolOutcome::Error { message })
    }

    /// Ends the run with an output.
    fn succeed(&mut self, session: &mut Session, output: String) -> (action: ToolRunAction)
        ensures
            final(self).deep_view() == (ToolRunView {
                phase: ToolRunPhase::Over,
                ..old(self).deep_view()
            }),
            final(session).deep_view() == disarmed(old(session).deep_view()),
            action.deep_view() == ToolRunActionView::Finished(
                ToolOutcomeView::Success { output: output@ },
            ),
    {
        session.cancel_armed = false;
        self.phase = ToolRunPhase::Over;
        ToolRunAction::Finished(ToolOutcome::Success { output })
    }

    /// Lets the session wait.
    fn suspend(
        &mut self,
        session: &mut Session,
        tree: &SessionTree,
        effects: &mut Vec<Effect>,
        wait: SuspendedWait,
    ) -> (action: ToolRunAction)
        ensures
            tool_moved(
                suspended(
                    old(self).deep_view(),
                    old(session).deep_view(),
                    tree.deep_view(),
                    old(effects).deep_view(),
                    wait.deep_view(),
                ),
                *final(self),
                *final(session),
                *tree,
                *final(effects),
                action,
            ),
    {
        session.cancel_armed = false;
        session.state = SessionState::Waiting;
        session.suspended_wait = Some(wait);
        send_state(effects, session.id, SessionState::Waiting);
        add_effect(effects, Effect::Checkpoint);
        self.phase = ToolRunPhase::Over;
        ToolRunAction::Finished(ToolOutcome::Cancelled)
    }

    /// Whether the call says that it does not want to wait.
    fn is_non_blocking(&self) -> (r: bool)
        ensures
            r == wants_no_wait(self.deep_view().call),
    {
        match self.call.arguments.flag("non_blocking") {
            Some(flag) => flag,
            None => false,
        }
    }

    /// Waits for the end of a child.
    fn wait_child(
        &mut self,
        session: &mut Session,
        tree: &mut SessionTree,
        edges: &Vec<(SessionId, SessionId)>,
        now_ms: u64,
        effects: &mut Vec<Effect>,
    ) -> (action: ToolRunAction)
        ensures
            tool_moved(
                waited_for_child(
                    old(self).deep_view(),
                    old(session).deep_view(),
                    old(tree).deep_view(),
                    edges@,
                    now_ms,
                    old(effects).deep_view(),
                ),
                *final(self),
                *final(session),
                *final(tree),
                *final(effects),
                action,
            ),
    {
        let written = match self.call.arguments.text("child_id") {
            Some(written) => written,
            None => {
                return self.refuse(
                    session,
                    "invalid arguments: missing required parameter: child_id".to_owned(),
                );
            },
        };
        let child_id = match parse_session_id(written.as_str()) {
            Some(child_id) => child_id,
            None => {
                let message = joined_text(
                    "invalid arguments: invalid child_id: ",
                    written.as_str(),
                );
                return self.refuse(session, message);
            },
        };
        let is_child = match tree.parent_of(child_id) {
            Some(parent) => parent == session.id,
            None => false,
        };
        if is_child {
            if let Some(status) = tree.exit_status(child_id) {
                session.cancel_armed = false;
                self.phase = ToolRunPhase::Rendering;
                return ToolRunAction::RenderExit(status);
            }
        }
        if self.is_non_blocking() || (self.host == Host::Core && !is_child) {
            return self.succeed(session, "null".to_owned());
        }
        if self.host == Host::Core && (wait_closes_cycle(edges, session.id, child_id)
            || tree.wait_would_cycle(session.id, child_id)) {
            let mut message = "deadlock detected: waiting for child ".to_owned();
            message.append(child_id.debug_text().as_str());
            message.append(" would create a wait cycle");
            return self.refuse(session, message);
        }
        if let Err(error) = tree.register_active_wait(session.id, child_id) {
            return self.refuse(session, error);
        }
        let wait = SuspendedWait::ChildExit {
            tool_use_id: self.call.tool_use_id.clone(),
            child_id,
            timeout_at: deadline_from(now_ms, self.call.arguments.count("timeout_ms")),
        };
        self.suspend(session, tree, effects, wait)
    }

    /// Receives a message.
    fn recv_message(
        &mut self,
        session: &mut Session,
        tree: &mut SessionTree,
        edges: &Vec<(SessionId, SessionId)>,
        now_ms: u64,
        effects: &mut Vec<Effect>,
    ) -> (action: ToolRunAction)
        ensures
            tool_moved(
                message_received(
                    old(self).deep_view(),
                    old(session).deep_view(),
                    old(tree).deep_view(),
                    edges@,
                    now_ms,
                    old(effects).deep_view(),
                ),
                *final(self),
                *final(session),
                *final(tree),
                *final(effects),
                action,
            ),
    {
        let written = match self.call.arguments.text("source") {
            Some(written) => written,
            None => {
                return self.refuse(
                    session,
                    "invalid arguments: missing required parameter: source".to_owned(),
                );
            },
        };
        let source = match parse_source(written.as_str()) {
            Some(source) => source,
            None => {
                let message = joined_text(
                    "invalid arguments: invalid source session_id: ",
                    written.as_str(),
                );
                return self.refuse(session, message);
            },
        };
        let ghost mailbox = session.mailbox.deep_view();
        if let Some(message) = pop_mailbox_message(&mut session.mailbox, &source) {
            return self.succeed(session, render_message(&message));
        }
        assert(session.mailbox.deep_view() == mailbox);
        if self.is_non_blocking() {
            return self.succeed(session, "null".to_owned());
        }
        if let MessageSource::Session(id) = source {
            match self.host {
                Host::Actor => {
                    if let Err(error) = tree.register_active_wait(session.id, id) {
                        return self.refuse(session, error);
                    }
                },
                Host::Core => {
                    if wait_closes_cycle(edges, session.id, id) {
                        let mut message = "deadlock detected: waiting for session ".to_owned();
                        message.append(id.debug_text().as_str());
                        message.append(" would create a wait cycle");
                        return self.refuse(session, message);
                    }
                },
            }
        }
        let wait = SuspendedWait::Mailbox {
            tool_use_id: self.call.tool_use_id.clone(),
            source,
            timeout_at: deadline_from(now_ms, self.call.arguments.count("timeout_ms")),
        };
        self.suspend(session, tree, effects, wait)
    }

    /// Carries out a call that is permitted.
    fn carry_out(
        &mut self,
        session: &mut Session,
        tree: &mut SessionTree,
        edges: &Vec<(SessionId, SessionId)>,
        now_ms: u64,
        effects: &mut Vec<Effect>,
    ) -> (action: ToolRunAction)
        ensures
            tool_moved(
                carried_out(
                    old(self).deep_view(),
                    old(session).deep_view(),
                    old(tree).deep_view(),
                    edges@,
                    now_ms,
                    old(effects).deep_view(),
                ),
                *final(self),
                *final(session),
                *final(tree),
                *final(effects),
                action,
            ),
    {
        if self.host == Host::Core && text::same(self.call.tool_name.as_str(), "spawn") {
            return match self.call.arguments.text("task") {
                Some(task) => {
                    self.phase = ToolRunPhase::Spawning;
                    let system_prompt = self.call.arguments.text("system_prompt");
                    ToolRunAction::Spawn { task, system_prompt }
                },
                None => self.refuse(
                    session,
                    "invalid arguments: missing required parameter: task".to_owned(),
                ),
            };
        }
        if text::same(self.call.tool_name.as_str(), "wait_child") {
            return self.wait_child(session, tree, edges, now_ms, effects);
        }
        if text::same(self.call.tool_name.as_str(), "recv_message") {
            return self.recv_message(session, tree, edges, now_ms, effects);
        }
        self.phase = ToolRunPhase::Executing;
        ToolRunAction::Execute { interactive: self.interactive }
    }

    /// Asks the user for permission.
    fn ask_approval(
        &mut self,
        session: &mut Session,
        tree: &SessionTree,
        effects: &mut Vec<Effect>,
        request: InteractionRequest,
        reason: String,
    ) -> (action: ToolRunAction)
        requires
            old(effects)@.len() == 0,
        ensures
            tool_moved(
                approval_asked(
                    old(self).deep_view(),
                    old(session).deep_view(),
                    tree.deep_view(),
                    request.deep_view(),
                    reason@,
                ),
                *final(self),
                *final(session),
                *tree,
                *final(effects),
                action,
            ),
    {
        let ghost wanted = approval_asked(
            self.deep_view(),
            session.deep_view(),
            tree.deep_view(),
            request.deep_view(),
            reason@,
        ).effects;
        assert(effects.deep_view() =~= Seq::empty());
        session.state = SessionState::Paused;
        session.approval_pending = true;
        match self.host {
            Host::Actor => {
                send(effects, CoreOutput::InteractionNeeded { session_id: session.id, request });
                send_state(effects, session.id, SessionState::Paused);
            },
            Host::Core => {
                send_state(effects, session.id, SessionState::Paused);
                send(effects, CoreOutput::InteractionNeeded { session_id: session.id, request });
            },
        }
        assert(effects.deep_view() =~= wanted);
        self.phase = ToolRunPhase::Approving;
        self.reason = reason;
        ToolRunAction::AwaitApproval
    }

    /// Takes the verdict of the rules.
    fn judged(
        &mut self,
        session: &mut Session,
        tree: &mut SessionTree,
        edges: &Vec<(SessionId, SessionId)>,
        now_ms: u64,
        effects: &mut Vec<Effect>,
        verdict: PermissionVerdict,
    ) -> (action: ToolRunAction)
        requires
            old(effects)@.len() == 0,
        ensures
            tool_moved(
                after_verdict(
                    old(self).deep_view(),
                    old(session).deep_view(),
                    old(tree).deep_view(),
                    edges@,
                    now_ms,
                    verdict.deep_view(),
                ),
                *final(self),
                *final(session),
                *final(tree),
                *final(effects),
                action,
            ),
    {
        assert(effects.deep_view() =~= Seq::empty());
        session.last_permission = Some(
            PermissionOutcome { tool_name: self.call.tool_name.clone(), verdict: verdict.clone() },
        );
        assert(session.deep_view() =~= judged_session(
            old(session).deep_view(),
            self.call.deep_view(),
            verdict.deep_view(),
        ));
        match verdict {
            PermissionVerdict::Allowed => self.carry_out(session, tree, edges, now_ms, effects),
            PermissionVerdict::NeedsApproval { request, reason } => self.ask_approval(
                session,
                tree,
                effects,
                request,
                reason,
            ),
            PermissionVerdict::Denied { reason } => {
                let message = joined_text("permission denied: ", reason.as_str());
                self.refuse(session, message)
            },
        }
    }

    /// Takes what the user said.
    fn answered(
        &mut self,
        session: &mut Session,
        tree: &mut SessionTree,
        edges: &Vec<(SessionId, SessionId)>,
        now_ms: u64,
        effects: &mut Vec<Effect>,
        choice: Option<ApprovalChoice>,
    ) -> (action: ToolRunAction)
        requires
            old(effects)@.len() == 0,
        ensures
            tool_moved(
                after_answer(
                    old(self).deep_view(),
                    old(session).deep_view(),
                    old(tree).deep_view(),
                    edges@,
                    now_ms,
                    choice,
                ),
                *final(self),
                *final(session),
                *final(tree),
                *final(effects),
                action,
            ),
    {
        assert(effects.deep_view() =~= Seq::empty());
        if choice.is_none() && self.host == Host::Actor {
            return ToolRunAction::AwaitApproval;
        }
        session.state = SessionState::Streaming;
        session.approval_pending = false;
        send_state(effects, session.id, SessionState::Streaming);
        assert(effects.deep_view() =~= seq![state_effect(session.id, SessionState::Streaming)]);
        match choice {
            Some(ApprovalChoice::ApproveOnce) => self.carry_out(
                session,
                tree,
                edges,
                now_ms,
                effects,
            ),
            _ => {
                let message = joined_text("permission denied: ", self.reason.as_str());
                self.refuse(session, message)
            },
        }
    }

    /// Ends the run of a tool that the host ran.
    fn end(
        &mut self,
        session: &mut Session,
        tree: &SessionTree,
        effects: &mut Vec<Effect>,
        outcome: ToolOutcome,
    ) -> (action: ToolRunAction)
        requires
            old(effects)@.len() == 0,
        ensures
            tool_moved(
                tool_ended(
                    old(self).deep_view(),
                    old(session).deep_view(),
                    tree.deep_view(),
                    outcome.deep_view(),
                ),
                *final(self),
                *final(session),
                *tree,
                *final(effects),
                action,
            ),
    {
        assert(effects.deep_view() =~= Seq::empty());
        if session.cancel_armed {
            add_effect(effects, Effect::CancelTool);
            assert(effects.deep_view() =~= seq![EffectView::CancelTool]);
        }
        session.cancel_armed = false;
        self.phase = ToolRunPhase::Over;
        ToolRunAction::Finished(outcome)
    }

    /// Ends the run because the session was stopped.
    fn interrupted(
        &mut self,
        session: &mut Session,
        tree: &SessionTree,
        effects: &mut Vec<Effect>,
    ) -> (action: ToolRunAction)
        requires
            old(effects)@.len() == 0,
        ensures
            tool_moved(
                after_interrupt(
                    old(self).deep_view(),
                    old(session).deep_view(),
                    tree.deep_view(),
                ),
                *final(self),
                *final(session),
                *tree,
                *final(effects),
                action,
            ),
    {
        assert(effects.deep_view() =~= Seq::empty());
        if self.phase == ToolRunPhase::Approving {
            if self.host == Host::Core {
                send_state(effects, session.id, SessionState::Streaming);
                assert(effects.deep_view() =~= seq![
                    state_effect(session.id, SessionState::Streaming),
                ]);
            }
            session.cancel_armed = false;
            self.phase = ToolRunPhase::Over;
            ToolRunAction::Finished(ToolOutcome::Cancelled)
        } else {
            self.end(session, tree, effects, ToolOutcome::Cancelled)
        }
    }

    /// Ends the run because there is nobody left who could answer or stop the session.
    fn closed(
        &mut self,
        session: &mut Session,
        tree: &SessionTree,
        effects: &mut Vec<Effect>,
    ) -> (action: ToolRunAction)
        requires
            old(effects)@.len() == 0,
        ensures
            tool_moved(
                after_close(
                    old(self).deep_view(),
                    old(session).deep_view(),
                    tree.deep_view(),
                ),
                *final(self),
                *final(session),
                *tree,
                *final(effects),
                action,
            ),
    {
        assert(effects.deep_view() =~= Seq::empty());
        if self.phase == ToolRunPhase::Approving {
            match self.host {
                Host::Actor => self.refuse(session, "input channel closed".to_owned()),
                Host::Core => {
                    session.state = SessionState::Streaming;
                    session.approval_pending = false;
                    send_state(effects, session.id, SessionState::Streaming);
                    assert(effects.deep_view() =~= seq![
                        state_effect(session.id, SessionState::Streaming),
                    ]);
                    let why = joined_text(
                        self.reason.as_str(),
                        "; approval response channel closed",
                    );
                    let message = joined_text("permission denied: ", why.as_str());
                    self.refuse(session, message)
                },
            }
        } else {
            let message = if self.phase == ToolRunPhase::Executing && self.host == Host::Actor {
                if self.interactive {
                    "input channel closed during interactive execution".to_owned()
                } else {
                    "input channel closed during execution".to_owned()
                }
            } else {
                "input channel closed".to_owned()
            };
            self.end(session, tree, effects, ToolOutcome::Error { message })
        }
    }

    /// Takes an event, and says what comes next. `edges` are the waits between the sessions
    /// that the core holds, `now_ms` is the time of a clock that never goes back.
    #[verifier::rlimit(40)]
    pub fn step(
        &mut self,
        session: &mut Session,
        tree: &mut SessionTree,
        edges: &Vec<(SessionId, SessionId)>,
        now_ms: u64,
        event: ToolRunEvent,
    ) -> (r: (Vec<Effect>, ToolRunAction))
        requires
            tool_awaits(old(self).deep_view(), event.deep_view()),
        ensures
            tool_moved(
                tool_move(
                    old(self).deep_view(),
                    old(session).deep_view(),
                    old(tree).deep_view(),
                    edges@,
                    now_ms,
                    event.deep_view(),
                ),
                *final(self),
                *final(session),
                *final(tree),
                r.0,
                r.1,
            ),
    {
        let mut effects: Vec<Effect> = Vec::new();
        assert(effects.deep_view() =~= Seq::empty());
        let action = match event {
            ToolRunEvent::Permission(verdict) => self.judged(
                session,
                tree,
                edges,
                now_ms,
                &mut effects,
                verdict,
            ),
            ToolRunEvent::Answer(choice) => self.answered(
                session,
                tree,
                edges,
                now_ms,
                &mut effects,
                choice,
            ),
            ToolRunEvent::Interrupted => self.interrupted(session, tree, &mut effects),
            ToolRunEvent::Closed => self.closed(session, tree, &mut effects),
            ToolRunEvent::Spawned(child_id) => self.succeed(session, child_id.debug_text()),
            ToolRunEvent::SpawnFailed(error) => {
                let message = joined_text("failed to spawn: ", error.as_str());
                self.refuse(session, message)
            },
            ToolRunEvent::Rendered(output) => self.succeed(session, output),
            ToolRunEvent::Returned(returned) => {
                let outcome = tool_outcome(returned);
                self.end(session, tree, &mut effects, outcome)
            },
            ToolRunEvent::Requested(request) => {
                send(
                    &mut effects,
                    CoreOutput::InteractionNeeded { session_id: session.id, request },
                );
                assert(effects.deep_view() =~= seq![
                    EffectView::Output(
                        CoreOutputView::InteractionNeeded {
                            session_id: session.id,
                            request: request.deep_view(),
                        },
                    ),
                ]);
                self.phase = ToolRunPhase::Asking;
                ToolRunAction::AwaitAnswer
            },
            ToolRunEvent::Answered => {
                self.phase = ToolRunPhase::Executing;
                ToolRunAction::AwaitTool
            },
        };
        (effects, action)
    }
}

impl Session {
    /// Prepares the session for tools that run side by side. A session that was stopped runs
    /// none.
    pub fn begin_tool_batch(&mut self) -> (begins: bool)
        ensures
            begins == !old(self).deep_view().interrupted,
            final(self).deep_view() == (SessionView {
                cancel_armed: begins || old(self).deep_view().cancel_armed,
                ..old(self).deep_view()
            }),
    {
        if self.interrupted {
            return false;
        }
        self.cancel_armed = true;
        true
    }

    /// Notes that tools that ran side by side have ended. They are told to stop, in case one
    /// has not.
    pub fn end_tool_batch(&mut self) -> (tell_tools: bool)
        ensures
            tell_tools == old(self).deep_view().cancel_armed,
            final(self).deep_view() == disarmed(old(self).deep_view()),
    {
        let tell_tools = self.cancel_armed;
        self.cancel_armed = false;
        tell_tools
    }
}

} // verus!
