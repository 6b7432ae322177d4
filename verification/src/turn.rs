//! A turn of a session: the model is asked, the tools it calls are run, and their results go
//! back to it, until it answers with text.
//!
//! [`Turn`] decides. The host does what [`TurnAction`] says, and hands the result back as a
//! [`TurnEvent`].

use vstd::prelude::*;
use vstd::string::*;

use crate::channel::{
    outcome_text, CoreOutput, CoreOutputView, ToolOutcome, ToolOutcomeView, TurnStatus,
};
use crate::compaction::{
    archived_history, compaction_due_at, replace_archived_tool_results, should_auto_compact_at,
};
use crate::context::{report_outputs, turn_diagnostics, Session, SessionView};
use crate::effect::{add_effect, send, send_all, send_state, sent, state_effect, Effect, EffectView};
use crate::error::{CoreError, CoreErrorView};
use crate::message::{
    text_message, tool_result_message, tool_use_message, Message, MessageView, PendingToolCall,
    PendingToolCallView, PromptCacheUsage, Role, TokenUsage, ToolDefinition, ToolDefinitionView,
    ToolUseRequest, ToolUseRequestView,
};
use crate::model_call::{ModelOutcome, ModelOutcomeView, ModelReply, ModelReplyView};
use crate::plan::{
    normalize_plan_tool_arguments, normalized, plan_message, plan_output, plan_output_with_prompt,
    plan_progress, plan_progress_with_prompt, plan_update, updated_action, PlanState, PlanStateView,
};
use crate::prompt::{
    cache_tokens, cache_usage, canonicalize_prompt_cache_tokens, estimate_prompt_cache_usage,
};
use crate::session::{SessionId, SessionState};
use crate::status_report::{
    effective_threshold, periodic_report_due, should_emit_completed_status_report,
    should_emit_periodic_status_report, SessionStatusReport, SessionStatusReportView,
    StatusReportStage,
};
use crate::tools::{
    batch_eligible, tool_batch_is_concurrency_eligible, CompletedToolCall, CompletedToolCallView,
};

verus! {

broadcast use vstd::seq::group_seq_axioms;

/// What runs a turn.
#[derive(Clone, Copy, Debug, PartialEq, Eq, Structural)]
pub enum Host {
    /// An actor that has one session to itself.
    Actor,
    /// The core, which holds all sessions and may run tools side by side.
    Core,
}

impl DeepView for Host {
    type V = Host;

    open spec fn deep_view(&self) -> Host {
        *self
    }
}

/// What a turn waits for.
#[derive(Clone, Copy, Debug, PartialEq, Eq, Structural)]
pub enum TurnPhase {
    /// The archiving of old tool results.
    Archiving,
    /// The compaction of the history.
    Compacting,
    /// The messages for the model.
    Building,
    /// The answer of the model.
    Calling,
    /// The status report at the end.
    ReportingEnd,
    /// The result of a tool.
    Running,
    /// The results of tools that run side by side.
    RunningBatch,
    /// The text of a result as it goes into the history.
    Recording,
    /// The plan that a tool has changed.
    Planning,
    /// The status report after the tools.
    ReportingProgress,
    /// Nothing: it is over.
    Over,
}

impl DeepView for TurnPhase {
    type V = TurnPhase;

    open spec fn deep_view(&self) -> TurnPhase {
        *self
    }
}

/// How a turn ended.
#[derive(Debug)]
pub enum TurnOutcome {
    /// With an answer.
    Completed(Option<String>),
    /// With an error.
    Failed(String),
    /// It was stopped.
    Cancelled,
    /// The session waits for something, and the turn goes on later.
    Suspended,
}

/// The model of [`TurnOutcome`].
#[verifier::ext_equal]
pub enum TurnOutcomeView {
    Completed(Option<Seq<char>>),
    Failed(Seq<char>),
    Cancelled,
    Suspended,
}

impl DeepView for TurnOutcome {
    type V = TurnOutcomeView;

    open spec fn deep_view(&self) -> TurnOutcomeView {
        match *self {
            TurnOutcome::Completed(value) => TurnOutcomeView::Completed(value.deep_view()),
            TurnOutcome::Failed(value) => TurnOutcomeView::Failed(value.deep_view()),
            TurnOutcome::Cancelled => TurnOutcomeView::Cancelled,
            TurnOutcome::Suspended => TurnOutcomeView::Suspended,
        }
    }
}

/// What the host of a turn has to do next.
#[derive(Debug)]
pub enum TurnAction {
    ArchiveOldResults,
    Compact,
    BuildMessages,
    CallModel { messages: Vec<Message>, tools: Vec<ToolDefinition> },
    GenerateReport { stage: StatusReportStage, calls: usize },
    RunTool(PendingToolCall),
    RunBatch(Vec<PendingToolCall>),
    PrepareResult { tool_use_id: String, tool_name: String, output: String, is_error: bool },
    ShowPlan { plan_id: String, action_id: String },
    Finished(TurnOutcome),
}

/// The model of [`TurnAction`].
#[verifier::ext_equal]
pub enum TurnActionView {
    ArchiveOldResults,
    Compact,
    BuildMessages,
    CallModel { messages: Seq<MessageView>, tools: Seq<ToolDefinitionView> },
    GenerateReport { stage: StatusReportStage, calls: usize },
    RunTool(PendingToolCallView),
    RunBatch(Seq<PendingToolCallView>),
    PrepareResult {
        tool_use_id: Seq<char>,
        tool_name: Seq<char>,
        output: Seq<char>,
        is_error: bool,
    },
    ShowPlan { plan_id: Seq<char>, action_id: Seq<char> },
    Finished(TurnOutcomeView),
}

impl DeepView for TurnAction {
    type V = TurnActionView;

    open spec fn deep_view(&self) -> TurnActionView {
        match *self {
            TurnAction::ArchiveOldResults => TurnActionView::ArchiveOldResults,
            TurnAction::Compact => TurnActionView::Compact,
            TurnAction::BuildMessages => TurnActionView::BuildMessages,
            TurnAction::CallModel { messages, tools } => TurnActionView::CallModel {
                messages: messages.deep_view(),
                tools: tools.deep_view(),
            },
            TurnAction::GenerateReport { stage, calls } => TurnActionView::GenerateReport {
                stage,
                calls,
            },
            TurnAction::RunTool(value) => TurnActionView::RunTool(value.deep_view()),
            TurnAction::RunBatch(value) => TurnActionView::RunBatch(value.deep_view()),
            TurnAction::PrepareResult {
                tool_use_id,
                tool_name,
                output,
                is_error,
            } => TurnActionView::PrepareResult {
                tool_use_id: tool_use_id.deep_view(),
                tool_name: tool_name.deep_view(),
                output: output.deep_view(),
                is_error,
            },
            TurnAction::ShowPlan { plan_id, action_id } => TurnActionView::ShowPlan {
                plan_id: plan_id.deep_view(),
                action_id: action_id.deep_view(),
            },
            TurnAction::Finished(value) => TurnActionView::Finished(value.deep_view()),
        }
    }
}

/// What came of an action.
#[derive(Debug)]
pub enum TurnEvent {
    /// For each message of the history the archive that its result went to, if it did.
    Archived(Vec<Option<String>>),
    ArchivingFailed(CoreError),
    Compacted,
    CompactionFailed(CoreError),
    Built(Vec<Message>),
    BuildingFailed(CoreError),
    Model(ModelOutcome),
    Reported(SessionStatusReport),
    ToolFinished { outcome: ToolOutcome, duration_us: u64 },
    BatchFinished(Vec<CompletedToolCall>),
    Prepared(String),
    PreparingFailed(CoreError),
    Plan(Option<PlanState>),
}

/// The model of [`TurnEvent`].
#[verifier::ext_equal]
pub enum TurnEventView {
    Archived(Seq<Option<Seq<char>>>),
    ArchivingFailed(CoreErrorView),
    Compacted,
    CompactionFailed(CoreErrorView),
    Built(Seq<MessageView>),
    BuildingFailed(CoreErrorView),
    Model(ModelOutcomeView),
    Reported(SessionStatusReportView),
    ToolFinished { outcome: ToolOutcomeView, duration_us: u64 },
    BatchFinished(Seq<CompletedToolCallView>),
    Prepared(Seq<char>),
    PreparingFailed(CoreErrorView),
    Plan(Option<PlanStateView>),
}

impl DeepView for TurnEvent {
    type V = TurnEventView;

    open spec fn deep_view(&self) -> TurnEventView {
        match *self {
            TurnEvent::Archived(value) => TurnEventView::Archived(value.deep_view()),
            TurnEvent::ArchivingFailed(value) => TurnEventView::ArchivingFailed(value.deep_view()),
            TurnEvent::Compacted => TurnEventView::Compacted,
            TurnEvent::CompactionFailed(value) => TurnEventView::CompactionFailed(
                value.deep_view(),
            ),
            TurnEvent::Built(value) => TurnEventView::Built(value.deep_view()),
            TurnEvent::BuildingFailed(value) => TurnEventView::BuildingFailed(value.deep_view()),
            TurnEvent::Model(value) => TurnEventView::Model(value.deep_view()),
            TurnEvent::Reported(value) => TurnEventView::Reported(value.deep_view()),
            TurnEvent::ToolFinished { outcome, duration_us } => TurnEventView::ToolFinished {
                outcome: outcome.deep_view(),
                duration_us,
            },
            TurnEvent::BatchFinished(value) => TurnEventView::BatchFinished(value.deep_view()),
            TurnEvent::Prepared(value) => TurnEventView::Prepared(value.deep_view()),
            TurnEvent::PreparingFailed(value) => TurnEventView::PreparingFailed(value.deep_view()),
            TurnEvent::Plan(value) => TurnEventView::Plan(value.deep_view()),
        }
    }
}

/// A turn.
#[derive(Debug)]
pub struct Turn {
    pub host: Host,
    pub phase: TurnPhase,
    /// What the model has used in this turn.
    pub usage: Option<TokenUsage>,
    pub cache_usage: Option<PromptCacheUsage>,
    /// The tokens of the request that is under way.
    pub prompt_tokens: Vec<String>,
    pub prompt_usage: PromptCacheUsage,
    /// The answer, once it is there.
    pub text: String,
    /// The tools that the model called.
    pub calls: Vec<PendingToolCall>,
    /// How many of them have ended.
    pub next: usize,
    pub completed: Vec<CompletedToolCall>,
    /// How many results are in the history.
    pub recorded: usize,
    /// Whether one of them was cancelled.
    pub saw_cancelled: bool,
    /// Whether the tools run side by side.
    pub concurrent: bool,
}

/// The model of [`Turn`].
#[verifier::ext_equal]
pub struct TurnView {
    pub host: Host,
    pub phase: TurnPhase,
    pub usage: Option<TokenUsage>,
    pub cache_usage: Option<PromptCacheUsage>,
    pub prompt_tokens: Seq<Seq<char>>,
    pub prompt_usage: PromptCacheUsage,
    pub text: Seq<char>,
    pub calls: Seq<PendingToolCallView>,
    pub next: usize,
    pub completed: Seq<CompletedToolCallView>,
    pub recorded: usize,
    pub saw_cancelled: bool,
    pub concurrent: bool,
}

impl DeepView for Turn {
    type V = TurnView;

    open spec fn deep_view(&self) -> TurnView {
        TurnView {
            host: self.host,
            phase: self.phase,
            usage: self.usage,
            cache_usage: self.cache_usage,
            prompt_tokens: self.prompt_tokens.deep_view(),
            prompt_usage: self.prompt_usage,
            text: self.text.deep_view(),
            calls: self.calls.deep_view(),
            next: self.next,
            completed: self.completed.deep_view(),
            recorded: self.recorded,
            saw_cancelled: self.saw_cancelled,
            concurrent: self.concurrent,
        }
    }
}

/// A turn, its session, what has to be done for them, and what comes next.
#[verifier::ext_equal]
pub struct TurnMove {
    pub turn: TurnView,
    pub session: SessionView,
    pub effects: Seq<EffectView>,
    pub action: TurnActionView,
}

/// The event that ends a turn.
pub open spec fn turn_complete(
    turn: TurnView,
    session_id: SessionId,
    duration_us: u64,
    status: TurnStatus,
) -> EffectView {
    EffectView::Output(
        CoreOutputView::TurnComplete {
            session_id,
            duration_us,
            status,
            usage: turn.usage,
            cache_usage: turn.cache_usage,
        },
    )
}

/// A turn that is over.
pub open spec fn over(
    turn: TurnView,
    session: SessionView,
    effects: Seq<EffectView>,
    outcome: TurnOutcomeView,
) -> TurnMove {
    TurnMove {
        turn: TurnView { phase: TurnPhase::Over, ..turn },
        session,
        effects,
        action: TurnActionView::Finished(outcome),
    }
}

/// A turn that failed.
pub open spec fn failed(
    turn: TurnView,
    session: SessionView,
    effects: Seq<EffectView>,
    error: CoreErrorView,
    duration_us: u64,
    why: Seq<char>,
) -> TurnMove {
    over(
        turn,
        SessionView { state: SessionState::Idle, ..session },
        effects.push(state_effect(session.id, SessionState::Idle)).push(
            EffectView::Output(CoreOutputView::SessionError { session_id: session.id, error }),
        ).push(turn_complete(turn, session.id, duration_us, TurnStatus::Failed)),
        TurnOutcomeView::Failed(why),
    )
}

/// The history is ready: the model is asked, unless the session was stopped.
pub open spec fn ready(turn: TurnView, session: SessionView, duration_us: u64) -> TurnMove {
    if session.interrupted {
        over(
            turn,
            session,
            seq![turn_complete(turn, session.id, duration_us, TurnStatus::Cancelled)],
            TurnOutcomeView::Cancelled,
        )
    } else {
        TurnMove {
            turn: TurnView { phase: TurnPhase::Building, ..turn },
            session,
            effects: Seq::empty(),
            action: TurnActionView::BuildMessages,
        }
    }
}

/// Old tool results were archived. The history is compacted where the last prompt has reached
/// the percentage of the window that the session keeps.
pub open spec fn after_archiving(
    turn: TurnView,
    session: SessionView,
    archives: Seq<Option<Seq<char>>>,
    duration_us: u64,
) -> TurnMove {
    let lighter = SessionView { history: archived_history(session.history, archives), ..session };
    if compaction_due_at(
        session.max_context_window,
        session.last_input_tokens,
        session.auto_compact_threshold_percent,
    ) {
        TurnMove {
            turn: TurnView { phase: TurnPhase::Compacting, ..turn },
            session: lighter,
            effects: Seq::empty(),
            action: TurnActionView::Compact,
        }
    } else {
        ready(turn, lighter, duration_us)
    }
}

/// The messages for the model are there.
pub open spec fn after_building(
    turn: TurnView,
    session: SessionView,
    messages: Seq<MessageView>,
) -> TurnMove {
    let tokens = cache_tokens(messages, session.tools);
    let estimate = cache_usage(session.last_prompt_cache_tokens, tokens);
    TurnMove {
        turn: TurnView {
            phase: TurnPhase::Calling,
            prompt_tokens: tokens,
            prompt_usage: PromptCacheUsage {
                estimated_hit_tokens: estimate.0 as u64,
                estimated_miss_tokens: estimate.1 as u64,
            },
            ..turn
        },
        session: SessionView { diagnostics: Some(turn_diagnostics(session)), ..session },
        effects: Seq::empty(),
        action: TurnActionView::CallModel { messages, tools: session.tools },
    }
}

/// The tokens used so far, and those of one more answer.
pub open spec fn total_usage(total: Option<TokenUsage>, usage: Option<TokenUsage>) -> Option<
    TokenUsage,
> {
    match (total, usage) {
        (Some(total), Some(usage)) => Some(
            TokenUsage {
                input_tokens: (total.input_tokens + usage.input_tokens) as u64,
                output_tokens: (total.output_tokens + usage.output_tokens) as u64,
            },
        ),
        (None, Some(usage)) => Some(usage),
        (_, None) => total,
    }
}

/// The estimate of the prompt cache so far, and that of one more request.
pub open spec fn total_cache_usage(
    total: Option<PromptCacheUsage>,
    usage: PromptCacheUsage,
) -> PromptCacheUsage {
    match total {
        Some(total) => PromptCacheUsage {
            estimated_hit_tokens: (total.estimated_hit_tokens + usage.estimated_hit_tokens) as u64,
            estimated_miss_tokens: (total.estimated_miss_tokens
                + usage.estimated_miss_tokens) as u64,
        },
        None => usage,
    }
}

/// Whether the totals of a turn have room for an answer.
pub open spec fn usage_fits(turn: TurnView, usage: Option<TokenUsage>) -> bool {
    &&& turn.usage matches Some(total) ==> (usage matches Some(more) ==> {
        &&& total.input_tokens + more.input_tokens <= u64::MAX
        &&& total.output_tokens + more.output_tokens <= u64::MAX
    })
    &&& turn.cache_usage matches Some(total) ==> {
        &&& total.estimated_hit_tokens + turn.prompt_usage.estimated_hit_tokens <= u64::MAX
        &&& total.estimated_miss_tokens + turn.prompt_usage.estimated_miss_tokens <= u64::MAX
    }
}

/// A turn whose totals hold one more answer.
pub open spec fn accounted(turn: TurnView, usage: Option<TokenUsage>) -> TurnView {
    TurnView {
        usage: total_usage(turn.usage, usage),
        cache_usage: Some(total_cache_usage(turn.cache_usage, turn.prompt_usage)),
        ..turn
    }
}

/// A session that notes what an answer has used.
pub open spec fn noted(turn: TurnView, session: SessionView, usage: Option<TokenUsage>) -> SessionView {
    SessionView {
        last_input_tokens: match usage {
            Some(usage) => Some(usage.input_tokens),
            None => None,
        },
        last_prompt_cache_tokens: Some(turn.prompt_tokens),
        ..session
    }
}

/// What is sent when the status report of a session is replaced.
pub open spec fn report_effects(
    session: SessionView,
    report: Option<SessionStatusReportView>,
) -> Seq<EffectView> {
    sent(report_outputs(session, report))
}

/// A session with another status report.
pub open spec fn with_report(
    session: SessionView,
    report: Option<SessionStatusReportView>,
) -> SessionView {
    SessionView { status_report: report, ..session }
}

/// Whether the tool rounds of a turn are enough for a status report.
pub open spec fn many_rounds(session: SessionView) -> bool {
    session.current_turn_tool_rounds >= effective_threshold(
        session.config.status_report_min_tool_rounds,
    )
}

/// Whether a status report is due at the end of a turn.
pub open spec fn end_report_due(host: Host, session: SessionView) -> bool {
    match host {
        Host::Actor => session.status_report is Some || periodic_report_due(
            session.current_turn_tool_rounds,
            effective_threshold(session.config.status_report_min_tool_rounds),
        ),
        Host::Core => many_rounds(session),
    }
}

/// Whether a status report is due after a round of tools.
pub open spec fn progress_report_due(host: Host, session: SessionView) -> bool {
    match host {
        Host::Actor => periodic_report_due(
            session.current_turn_tool_rounds,
            effective_threshold(session.config.status_report_min_tool_rounds),
        ),
        Host::Core => many_rounds(session),
    }
}

/// A turn that ends with its answer.
pub open spec fn completed(
    turn: TurnView,
    session: SessionView,
    effects: Seq<EffectView>,
    duration_us: u64,
) -> TurnMove {
    over(
        turn,
        SessionView { state: SessionState::Idle, ..session },
        effects.push(
            EffectView::Output(
                CoreOutputView::TextComplete { session_id: session.id, full_text: turn.text },
            ),
        ).push(turn_complete(turn, session.id, duration_us, TurnStatus::Success)).push(
            state_effect(session.id, SessionState::Idle),
        ).push(EffectView::ConsiderMemoryRefresh).push(EffectView::Checkpoint),
        TurnOutcomeView::Completed(Some(turn.text)),
    )
}

/// The model answered with text.
pub open spec fn after_text(
    turn: TurnView,
    session: SessionView,
    text: Seq<char>,
    usage: Option<TokenUsage>,
    duration_us: u64,
) -> TurnMove {
    let counted = TurnView { text, ..accounted(turn, usage) };
    let noting = noted(turn, session, usage);
    let told = SessionView {
        history: session.history.push(text_message(Role::Assistant, text)),
        ..noting
    };
    if end_report_due(turn.host, told) {
        TurnMove {
            turn: TurnView { phase: TurnPhase::ReportingEnd, ..counted },
            session: told,
            effects: Seq::empty(),
            action: TurnActionView::GenerateReport { stage: StatusReportStage::Completed, calls: 0 },
        }
    } else {
        completed(counted, told, Seq::empty(), duration_us)
    }
}

/// Calls as they stand in the history.
pub open spec fn requests(calls: Seq<PendingToolCallView>) -> Seq<ToolUseRequestView> {
    calls.map_values(
        |c: PendingToolCallView|
            ToolUseRequestView {
                tool_use_id: c.tool_use_id,
                tool_name: c.tool_name,
                arguments: c.arguments,
            },
    )
}

/// Calls as they are carried out.
pub open spec fn resolved(
    history: Seq<MessageView>,
    calls: Seq<PendingToolCallView>,
) -> Seq<PendingToolCallView> {
    calls.map_values(|c: PendingToolCallView| normalized(history, c))
}

/// What is sent before a tool runs.
pub open spec fn request_effect(session_id: SessionId, call: PendingToolCallView) -> EffectView {
    EffectView::Output(
        CoreOutputView::ToolRequest {
            session_id,
            tool_use_id: call.tool_use_id,
            tool_name: call.tool_name,
            arguments: call.arguments,
        },
    )
}

/// What is sent before tools run side by side.
pub open spec fn request_effects(
    session_id: SessionId,
    calls: Seq<PendingToolCallView>,
) -> Seq<EffectView> {
    calls.map_values(|c: PendingToolCallView| request_effect(session_id, c))
}

/// The model called tools.
pub open spec fn after_calls(
    turn: TurnView,
    session: SessionView,
    text_before: Option<Seq<char>>,
    calls: Seq<PendingToolCallView>,
    usage: Option<TokenUsage>,
    duration_us: u64,
) -> TurnMove {
    let noting = noted(turn, session, usage);
    let told = SessionView {
        history: session.history.push(tool_use_message(text_before, requests(calls))),
        current_turn_tool_rounds: if session.current_turn_tool_rounds == u32::MAX {
            u32::MAX
        } else {
            (session.current_turn_tool_rounds + 1) as u32
        },
        ..noting
    };
    let effects = match text_before {
        Some(text) => seq![
            EffectView::Output(
                CoreOutputView::TextComplete { session_id: session.id, full_text: text },
            ),
        ],
        None => Seq::empty(),
    };
    let running = resolved(told.history, calls);
    let concurrent = turn.host == Host::Core && batch_eligible(told.registry, running);
    let begun = TurnView {
        calls: running,
        next: 0,
        completed: Seq::empty(),
        recorded: 0,
        saw_cancelled: false,
        concurrent,
        ..accounted(turn, usage)
    };
    if concurrent {
        TurnMove {
            turn: TurnView { phase: TurnPhase::RunningBatch, ..begun },
            session: told,
            effects: effects + request_effects(session.id, running),
            action: TurnActionView::RunBatch(running),
        }
    } else {
        run_next(begun, told, effects, duration_us)
    }
}

/// The next tool is run, unless the session was stopped.
pub open spec fn run_next(
    turn: TurnView,
    session: SessionView,
    effects: Seq<EffectView>,
    duration_us: u64,
) -> TurnMove {
    if turn.next >= turn.calls.len() {
        record_next(turn, session, effects, duration_us)
    } else if session.interrupted {
        over(
            turn,
            session,
            effects.push(state_effect(session.id, SessionState::Idle)).push(
                turn_complete(turn, session.id, duration_us, TurnStatus::Cancelled),
            ),
            TurnOutcomeView::Cancelled,
        )
    } else {
        let call = turn.calls[turn.next as int];
        TurnMove {
            turn: TurnView { phase: TurnPhase::Running, ..turn },
            session,
            effects: effects.push(request_effect(session.id, call)),
            action: TurnActionView::RunTool(call),
        }
    }
}

/// A tool has ended.
pub open spec fn after_tool(
    turn: TurnView,
    session: SessionView,
    outcome: ToolOutcomeView,
    tool_us: u64,
    duration_us: u64,
) -> TurnMove {
    let call = turn.calls[turn.next as int];
    let ended = CompletedToolCallView {
        index: turn.completed.len() as usize,
        tool_use_id: call.tool_use_id,
        tool_name: call.tool_name,
        arguments: call.arguments,
        result: outcome,
        duration_us: tool_us,
    };
    run_next(
        TurnView { completed: turn.completed.push(ended), next: (turn.next + 1) as usize, ..turn },
        session,
        Seq::empty(),
        duration_us,
    )
}

/// The next result goes into the history.
pub open spec fn record_next(
    turn: TurnView,
    session: SessionView,
    effects: Seq<EffectView>,
    duration_us: u64,
) -> TurnMove {
    if turn.recorded >= turn.completed.len() {
        all_recorded(turn, session, effects, duration_us)
    } else {
        let ended = turn.completed[turn.recorded as int];
        let (output, is_error) = outcome_text(ended.result);
        TurnMove {
            turn: TurnView { phase: TurnPhase::Recording, ..turn },
            session,
            effects: effects.push(
                EffectView::Output(
                    CoreOutputView::ToolResult {
                        session_id: session.id,
                        tool_use_id: ended.tool_use_id,
                        tool_name: ended.tool_name,
                        content: output,
                        is_error,
                        duration_us: ended.duration_us,
                    },
                ),
            ),
            action: TurnActionView::PrepareResult {
                tool_use_id: ended.tool_use_id,
                tool_name: ended.tool_name,
                output,
                is_error,
            },
        }
    }
}

/// A turn that ends because a tool was cancelled.
pub open spec fn cancelled(
    turn: TurnView,
    session: SessionView,
    effects: Seq<EffectView>,
    duration_us: u64,
    refresh: bool,
) -> TurnMove {
    let told = effects + report_effects(session, None);
    let ended = told.push(state_effect(session.id, SessionState::Idle)).push(
        turn_complete(turn, session.id, duration_us, TurnStatus::Cancelled),
    );
    over(
        turn,
        SessionView {
            cancel_armed: false,
            state: SessionState::Idle,
            ..with_report(session, None)
        },
        (if refresh {
            ended.push(EffectView::ConsiderMemoryRefresh)
        } else {
            ended
        }).push(EffectView::Checkpoint),
        TurnOutcomeView::Cancelled,
    )
}

/// A result is in the history.
pub open spec fn after_preparing(
    turn: TurnView,
    session: SessionView,
    output: Seq<char>,
    duration_us: u64,
) -> TurnMove {
    let ended = turn.completed[turn.recorded as int];
    let told = SessionView {
        history: session.history.push(
            tool_result_message(ended.tool_use_id, output, outcome_text(ended.result).1),
        ),
        ..session
    };
    let was_cancelled = ended.result is Cancelled;
    let noting = TurnView { saw_cancelled: turn.saw_cancelled || was_cancelled, ..turn };
    if was_cancelled && session.suspended_wait is Some {
        over(turn, told, Seq::empty(), TurnOutcomeView::Suspended)
    } else if was_cancelled && turn.host == Host::Core && !turn.concurrent {
        cancelled(turn, told, Seq::empty(), duration_us, false)
    } else {
        match updated_action(ended.tool_name, ended.arguments) {
            Some((plan_id, action_id)) => TurnMove {
                turn: TurnView { phase: TurnPhase::Planning, ..noting },
                session: told,
                effects: Seq::empty(),
                action: TurnActionView::ShowPlan { plan_id, action_id },
            },
            None => record_next(
                TurnView { recorded: (turn.recorded + 1) as usize, ..noting },
                told,
                Seq::empty(),
                duration_us,
            ),
        }
    }
}

/// The plan that a tool has changed is known, if there is one.
pub open spec fn after_plan(
    turn: TurnView,
    session: SessionView,
    plan: Option<PlanStateView>,
    duration_us: u64,
) -> TurnMove {
    let ended = turn.completed[turn.recorded as int];
    let (plan_id, action_id) = updated_action(ended.tool_name, ended.arguments)->0;
    let onward = TurnView { recorded: (turn.recorded + 1) as usize, ..turn };
    match plan {
        None => record_next(onward, session, Seq::empty(), duration_us),
        Some(plan) => match turn.host {
            Host::Actor => record_next(
                onward,
                session,
                match plan_output(session.id, plan, plan_id, action_id) {
                    Some(output) => seq![EffectView::Output(output)],
                    None => Seq::empty(),
                },
                duration_us,
            ),
            Host::Core => record_next(
                onward,
                SessionView {
                    history: match plan_message(plan, plan_id) {
                        Some(message) => session.history.push(message),
                        None => session.history,
                    },
                    ..session
                },
                seq![
                    EffectView::Output(
                        plan_output_with_prompt(session.id, plan, plan_id, action_id),
                    ),
                ],
                duration_us,
            ),
        },
    }
}

/// The results go back to the model.
pub open spec fn again(
    turn: TurnView,
    session: SessionView,
    effects: Seq<EffectView>,
) -> TurnMove {
    TurnMove {
        turn: TurnView { phase: TurnPhase::Archiving, ..turn },
        session,
        effects,
        action: TurnActionView::ArchiveOldResults,
    }
}

/// All results are in the history.
pub open spec fn all_recorded(
    turn: TurnView,
    session: SessionView,
    effects: Seq<EffectView>,
    duration_us: u64,
) -> TurnMove {
    if turn.saw_cancelled {
        cancelled(turn, session, effects, duration_us, true)
    } else if progress_report_due(turn.host, session) {
        TurnMove {
            turn: TurnView { phase: TurnPhase::ReportingProgress, ..turn },
            session,
            effects,
            action: TurnActionView::GenerateReport {
                stage: StatusReportStage::ReviewingResults,
                calls: turn.completed.len() as usize,
            },
        }
    } else {
        again(turn, session, effects)
    }
}

/// The status report is there.
pub open spec fn after_report(
    turn: TurnView,
    session: SessionView,
    report: SessionStatusReportView,
    duration_us: u64,
) -> TurnMove {
    let effects = report_effects(session, Some(report));
    let told = with_report(session, Some(report));
    if turn.phase == TurnPhase::ReportingEnd {
        completed(turn, told, effects, duration_us)
    } else {
        again(turn, told, effects)
    }
}

/// The model was asked.
pub open spec fn after_model(
    turn: TurnView,
    session: SessionView,
    outcome: ModelOutcomeView,
    duration_us: u64,
) -> TurnMove {
    match outcome {
        ModelOutcomeView::Interrupted => over(
            turn,
            with_report(session, None),
            report_effects(session, None).push(state_effect(session.id, SessionState::Idle)).push(
                turn_complete(turn, session.id, duration_us, TurnStatus::Cancelled),
            ),
            TurnOutcomeView::Cancelled,
        ),
        ModelOutcomeView::Failed(error) => failed(
            turn,
            with_report(session, None),
            report_effects(session, None),
            error,
            duration_us,
            "session error"@,
        ),
        ModelOutcomeView::Answered(ModelReplyView::Text { text, usage }) => after_text(
            turn,
            session,
            text,
            usage,
            duration_us,
        ),
        ModelOutcomeView::Answered(
            ModelReplyView::ToolCalls { text_before, calls, usage },
        ) => after_calls(turn, session, text_before, calls, usage, duration_us),
    }
}

/// What an event does to a turn and its session.
pub open spec fn turn_move(
    turn: TurnView,
    session: SessionView,
    event: TurnEventView,
    duration_us: u64,
) -> TurnMove {
    match event {
        TurnEventView::Archived(archives) => after_archiving(turn, session, archives, duration_us),
        TurnEventView::ArchivingFailed(error) | TurnEventView::CompactionFailed(error)
        | TurnEventView::BuildingFailed(error) => failed(
            turn,
            session,
            Seq::empty(),
            error,
            duration_us,
            "session error"@,
        ),
        TurnEventView::Compacted => ready(turn, session, duration_us),
        TurnEventView::Built(messages) => after_building(turn, session, messages),
        TurnEventView::Model(outcome) => after_model(turn, session, outcome, duration_us),
        TurnEventView::Reported(report) => after_report(turn, session, report, duration_us),
        TurnEventView::ToolFinished { outcome, duration_us: tool_us } => after_tool(
            turn,
            session,
            outcome,
            tool_us,
            duration_us,
        ),
        TurnEventView::BatchFinished(ended) => record_next(
            TurnView { completed: ended, ..turn },
            session,
            Seq::empty(),
            duration_us,
        ),
        TurnEventView::Prepared(output) => after_preparing(turn, session, output, duration_us),
        TurnEventView::PreparingFailed(error) => failed(
            turn,
            SessionView { cancel_armed: false, ..session },
            Seq::empty(),
            error,
            duration_us,
            error.text(),
        ),
        TurnEventView::Plan(plan) => after_plan(turn, session, plan, duration_us),
    }
}

/// Whether an event is one that a turn waits for.
pub open spec fn awaited(turn: TurnView, session: SessionView, event: TurnEventView) -> bool {
    match event {
        TurnEventView::Archived(archives) => turn.phase == TurnPhase::Archiving && archives.len()
            == session.history.len(),
        TurnEventView::ArchivingFailed(_) => turn.phase == TurnPhase::Archiving,
        TurnEventView::Compacted => turn.phase == TurnPhase::Compacting,
        TurnEventView::CompactionFailed(_) => turn.phase == TurnPhase::Compacting,
        TurnEventView::Built(_) => turn.phase == TurnPhase::Building,
        TurnEventView::BuildingFailed(_) => turn.phase == TurnPhase::Building,
        TurnEventView::Model(outcome) => turn.phase == TurnPhase::Calling && (match outcome {
            ModelOutcomeView::Answered(ModelReplyView::Text { usage, .. }) => usage_fits(
                turn,
                usage,
            ),
            ModelOutcomeView::Answered(ModelReplyView::ToolCalls { usage, .. }) => usage_fits(
                turn,
                usage,
            ),
            _ => true,
        }),
        TurnEventView::Reported(_) => turn.phase == TurnPhase::ReportingEnd || turn.phase
            == TurnPhase::ReportingProgress,
        TurnEventView::ToolFinished { .. } => turn.phase == TurnPhase::Running,
        TurnEventView::BatchFinished(_) => turn.phase == TurnPhase::RunningBatch,
        TurnEventView::Prepared(_) => turn.phase == TurnPhase::Recording,
        TurnEventView::PreparingFailed(_) => turn.phase == TurnPhase::Recording,
        TurnEventView::Plan(_) => turn.phase == TurnPhase::Planning,
    }
}

/// Whether the counts of a turn fit its calls and their results.
pub open spec fn counted(turn: TurnView) -> bool {
    &&& turn.next <= turn.calls.len() <= usize::MAX
    &&& turn.recorded <= turn.completed.len() <= usize::MAX
    &&& !turn.concurrent ==> {
        &&& turn.completed.len() <= turn.calls.len()
        &&& forall|i: int|
            0 <= i < turn.completed.len() ==> (#[trigger] turn.completed[i]).tool_use_id
                == turn.calls[i].tool_use_id
    }
}

/// Whether the parts of a turn fit together.
pub open spec fn consistent(turn: TurnView) -> bool {
    &&& counted(turn)
    &&& turn.phase == TurnPhase::Running ==> {
        &&& !turn.concurrent
        &&& turn.next < turn.calls.len()
        &&& turn.completed.len() == turn.next
        &&& turn.recorded == 0
    }
    &&& turn.phase == TurnPhase::RunningBatch ==> turn.concurrent && turn.recorded == 0
    &&& turn.phase == TurnPhase::Recording ==> turn.recorded < turn.completed.len()
    &&& turn.phase == TurnPhase::Planning ==> {
        &&& turn.recorded < turn.completed.len()
        &&& updated_action(
            turn.completed[turn.recorded as int].tool_name,
            turn.completed[turn.recorded as int].arguments,
        ) is Some
    }
}

/// Whether a turn, its session, the effects and the action are those of a move.
pub open spec fn moved(
    expected: TurnMove,
    turn: Turn,
    session: Session,
    effects: Vec<Effect>,
    action: TurnAction,
) -> bool {
    &&& turn.deep_view() == expected.turn
    &&& session.deep_view() == expected.session
    &&& effects.deep_view() == expected.effects
    &&& action.deep_view() == expected.action
}

proof fn lemma_record_next_consistent(
    turn: TurnView,
    session: SessionView,
    effects: Seq<EffectView>,
    duration_us: u64,
)
    requires
        counted(turn),
    ensures
        consistent(record_next(turn, session, effects, duration_us).turn),
{
    let next = record_next(turn, session, effects, duration_us).turn;
    assert(next == TurnView { phase: next.phase, ..turn });
}

proof fn lemma_run_next_consistent(
    turn: TurnView,
    session: SessionView,
    effects: Seq<EffectView>,
    duration_us: u64,
)
    requires
        counted(turn),
        !turn.concurrent,
        turn.completed.len() == turn.next,
        turn.recorded == 0,
    ensures
        consistent(run_next(turn, session, effects, duration_us).turn),
{
    if turn.next >= turn.calls.len() {
        lemma_record_next_consistent(turn, session, effects, duration_us);
    } else {
        let next = run_next(turn, session, effects, duration_us).turn;
        assert(next == TurnView { phase: next.phase, ..turn });
    }
}

/// A turn whose parts fit together stays so.
pub proof fn law_turn_stays_consistent(
    turn: TurnView,
    session: SessionView,
    event: TurnEventView,
    duration_us: u64,
)
    requires
        consistent(turn),
        awaited(turn, session, event),
        event matches TurnEventView::BatchFinished(ended) ==> ended.len() <= usize::MAX,
        event matches TurnEventView::Model(
            ModelOutcomeView::Answered(ModelReplyView::ToolCalls { calls, .. }),
        ) ==> calls.len() <= usize::MAX,
    ensures
        consistent(turn_move(turn, session, event, duration_us).turn),
{
    let none = Seq::<EffectView>::empty();
    match event {
        TurnEventView::Model(outcome) => {
            lemma_model_consistent(turn, session, outcome, duration_us);
        },
        TurnEventView::ToolFinished { outcome, duration_us: tool_us } => {
            let call = turn.calls[turn.next as int];
            let ended = CompletedToolCallView {
                index: turn.completed.len() as usize,
                tool_use_id: call.tool_use_id,
                tool_name: call.tool_name,
                arguments: call.arguments,
                result: outcome,
                duration_us: tool_us,
            };
            let onward = TurnView {
                completed: turn.completed.push(ended),
                next: (turn.next + 1) as usize,
                ..turn
            };
            lemma_run_next_consistent(onward, session, none, duration_us);
        },
        TurnEventView::BatchFinished(ended) => {
            lemma_record_next_consistent(
                TurnView { completed: ended, ..turn },
                session,
                none,
                duration_us,
            );
        },
        TurnEventView::Prepared(output) => {
            let ended = turn.completed[turn.recorded as int];
            let told = SessionView {
                history: session.history.push(
                    tool_result_message(ended.tool_use_id, output, outcome_text(ended.result).1),
                ),
                ..session
            };
            let noting = TurnView {
                saw_cancelled: turn.saw_cancelled || ended.result is Cancelled,
                ..turn
            };
            lemma_record_next_consistent(
                TurnView { recorded: (turn.recorded + 1) as usize, ..noting },
                told,
                none,
                duration_us,
            );
        },
        TurnEventView::Plan(plan) => {
            lemma_plan_consistent(turn, session, plan, duration_us);
        },
        _ => {
            let next = turn_move(turn, session, event, duration_us).turn;
            assert(next.calls == turn.calls && next.completed == turn.completed && next.next
                == turn.next && next.recorded == turn.recorded && next.concurrent
                == turn.concurrent);
        },
    }
}

proof fn lemma_model_consistent(
    turn: TurnView,
    session: SessionView,
    outcome: ModelOutcomeView,
    duration_us: u64,
)
    requires
        consistent(turn),
        outcome matches ModelOutcomeView::Answered(ModelReplyView::ToolCalls { calls, .. })
            ==> calls.len() <= usize::MAX,
    ensures
        consistent(after_model(turn, session, outcome, duration_us).turn),
{
    match outcome {
        ModelOutcomeView::Answered(ModelReplyView::ToolCalls { text_before, calls, usage }) => {
            let noting = noted(turn, session, usage);
            let told = SessionView {
                history: session.history.push(tool_use_message(text_before, requests(calls))),
                current_turn_tool_rounds: if session.current_turn_tool_rounds == u32::MAX {
                    u32::MAX
                } else {
                    (session.current_turn_tool_rounds + 1) as u32
                },
                ..noting
            };
            let effects = match text_before {
                Some(text) => seq![
                    EffectView::Output(
                        CoreOutputView::TextComplete { session_id: session.id, full_text: text },
                    ),
                ],
                None => Seq::empty(),
            };
            let running = resolved(told.history, calls);
            let concurrent = turn.host == Host::Core && batch_eligible(told.registry, running);
            let begun = TurnView {
                calls: running,
                next: 0,
                completed: Seq::empty(),
                recorded: 0,
                saw_cancelled: false,
                concurrent,
                ..accounted(turn, usage)
            };
            if !concurrent {
                lemma_run_next_consistent(begun, told, effects, duration_us);
            }
        },
        _ => {
            let next = after_model(turn, session, outcome, duration_us).turn;
            assert(next.calls == turn.calls && next.completed == turn.completed && next.next
                == turn.next && next.recorded == turn.recorded && next.concurrent
                == turn.concurrent);
        },
    }
}

proof fn lemma_plan_consistent(
    turn: TurnView,
    session: SessionView,
    plan: Option<PlanStateView>,
    duration_us: u64,
)
    requires
        consistent(turn),
        turn.phase == TurnPhase::Planning,
    ensures
        consistent(after_plan(turn, session, plan, duration_us).turn),
{
    let next = after_plan(turn, session, plan, duration_us).turn;
    let onward = TurnView { recorded: (turn.recorded + 1) as usize, ..turn };
    assert(next == TurnView { phase: next.phase, ..onward });
}

/// Calls as they stand in the history.
fn requests_for(calls: &Vec<PendingToolCall>) -> (r: Vec<ToolUseRequest>)
    ensures
        r.deep_view() == requests(calls.deep_view()),
{
    let ghost wanted = requests(calls.deep_view());
    let mut r: Vec<ToolUseRequest> = Vec::new();
    let mut i: usize = 0;
    assert(r.deep_view() =~= wanted.take(0));
    while i < calls.len()
        invariant
            i <= calls@.len(),
            wanted == requests(calls.deep_view()),
            r.deep_view() == wanted.take(i as int),
        decreases calls@.len() - i,
    {
        let ghost before = r.deep_view();
        r.push(
            ToolUseRequest {
                tool_use_id: calls[i].tool_use_id.clone(),
                tool_name: calls[i].tool_name.clone(),
                arguments: calls[i].arguments.clone(),
            },
        );
        assert(r.deep_view() =~= before.push(wanted[i as int]));
        assert(r.deep_view() =~= wanted.take(i + 1));
        i = i + 1;
    }
    assert(wanted.take(i as int) =~= wanted);
    r
}

/// Calls as they are carried out.
fn resolve_calls(history: &Vec<Message>, calls: &Vec<PendingToolCall>) -> (r: Vec<PendingToolCall>)
    ensures
        r.deep_view() == resolved(history.deep_view(), calls.deep_view()),
{
    let ghost wanted = resolved(history.deep_view(), calls.deep_view());
    let mut r: Vec<PendingToolCall> = Vec::new();
    let mut i: usize = 0;
    assert(r.deep_view() =~= wanted.take(0));
    while i < calls.len()
        invariant
            i <= calls@.len(),
            wanted == resolved(history.deep_view(), calls.deep_view()),
            r.deep_view() == wanted.take(i as int),
        decreases calls@.len() - i,
    {
        let ghost before = r.deep_view();
        r.push(normalize_plan_tool_arguments(history, &calls[i]));
        assert(r.deep_view() =~= before.push(wanted[i as int]));
        assert(r.deep_view() =~= wanted.take(i + 1));
        i = i + 1;
    }
    assert(wanted.take(i as int) =~= wanted);
    r
}

/// Adds what is sent before a tool runs.
fn send_request(effects: &mut Vec<Effect>, session_id: SessionId, call: &PendingToolCall)
    ensures
        final(effects).deep_view() == old(effects).deep_view().push(
            request_effect(session_id, call.deep_view()),
        ),
{
    send(
        effects,
        CoreOutput::ToolRequest {
            session_id,
            tool_use_id: call.tool_use_id.clone(),
            tool_name: call.tool_name.clone(),
            arguments: call.arguments.clone(),
        },
    );
}

/// Adds what is sent before tools run side by side.
fn send_requests(effects: &mut Vec<Effect>, session_id: SessionId, calls: &Vec<PendingToolCall>)
    ensures
        final(effects).deep_view() == old(effects).deep_view() + request_effects(
            session_id,
            calls.deep_view(),
        ),
{
    let ghost start = effects.deep_view();
    let ghost wanted = request_effects(session_id, calls.deep_view());
    let mut i: usize = 0;
    assert(start + wanted.take(0) =~= start);
    while i < calls.len()
        invariant
            i <= calls@.len(),
            wanted == request_effects(session_id, calls.deep_view()),
            effects.deep_view() == start + wanted.take(i as int),
        decreases calls@.len() - i,
    {
        let ghost before = effects.deep_view();
        send_request(effects, session_id, &calls[i]);
        assert(effects.deep_view() =~= before.push(wanted[i as int]));
        assert(effects.deep_view() =~= start + wanted.take(i + 1));
        i = i + 1;
    }
    assert(wanted.take(i as int) =~= wanted);
}

/// Replaces the status report of a session, and adds what is sent.
fn replace_report(
    session: &mut Session,
    effects: &mut Vec<Effect>,
    report: Option<SessionStatusReport>,
)
    ensures
        final(session).deep_view() == with_report(old(session).deep_view(), report.deep_view()),
        final(effects).deep_view() == old(effects).deep_view() + report_effects(
            old(session).deep_view(),
            report.deep_view(),
        ),
{
    let outputs = session.set_status_report(report);
    send_all(effects, outputs);
}

/// Appends a message to the history of a session.
fn tell(session: &mut Session, message: Message)
    ensures
        final(session).deep_view() == (SessionView {
            history: old(session).deep_view().history.push(message.deep_view()),
            ..old(session).deep_view()
        }),
{
    let ghost before = session.history.deep_view();
    session.history.push(message);
    assert(session.history.deep_view() =~= before.push(message.deep_view()));
}

/// The tokens used so far, and those of one more answer.
fn add_usage(total: Option<TokenUsage>, usage: Option<TokenUsage>) -> (r: Option<TokenUsage>)
    requires
        total matches Some(before) ==> (usage matches Some(more) ==> {
            &&& before.input_tokens + more.input_tokens <= u64::MAX
            &&& before.output_tokens + more.output_tokens <= u64::MAX
        }),
    ensures
        r == total_usage(total, usage),
{
    match (total, usage) {
        (Some(total), Some(usage)) => Some(
            TokenUsage {
                input_tokens: total.input_tokens + usage.input_tokens,
                output_tokens: total.output_tokens + usage.output_tokens,
            },
        ),
        (None, Some(usage)) => Some(usage),
        (_, None) => total,
    }
}

/// The estimate of the prompt cache so far, and that of one more request.
fn add_cache_usage(total: Option<PromptCacheUsage>, usage: PromptCacheUsage) -> (r: PromptCacheUsage)
    requires
        total matches Some(before) ==> {
            &&& before.estimated_hit_tokens + usage.estimated_hit_tokens <= u64::MAX
            &&& before.estimated_miss_tokens + usage.estimated_miss_tokens <= u64::MAX
        },
    ensures
        r == total_cache_usage(total, usage),
{
    match total {
        Some(total) => PromptCacheUsage {
            estimated_hit_tokens: total.estimated_hit_tokens + usage.estimated_hit_tokens,
            estimated_miss_tokens: total.estimated_miss_tokens + usage.estimated_miss_tokens,
        },
        None => usage,
    }
}

impl Turn {
    /// A turn that begins, and the first thing to do.
    pub fn begin(host: Host) -> (r: (Turn, TurnAction))
        ensures
            r.0.deep_view() == (TurnView {
                host,
                phase: TurnPhase::Archiving,
                usage: None,
                cache_usage: None,
                prompt_tokens: Seq::empty(),
                prompt_usage: PromptCacheUsage {
                    estimated_hit_tokens: 0,
                    estimated_miss_tokens: 0,
                },
                text: Seq::empty(),
                calls: Seq::empty(),
                next: 0,
                completed: Seq::empty(),
                recorded: 0,
                saw_cancelled: false,
                concurrent: false,
            }),
            consistent(r.0.deep_view()),
            r.1.deep_view() == TurnActionView::ArchiveOldResults,
    {
        let turn = Turn {
            host,
            phase: TurnPhase::Archiving,
            usage: None,
            cache_usage: None,
            prompt_tokens: Vec::new(),
            prompt_usage: PromptCacheUsage { estimated_hit_tokens: 0, estimated_miss_tokens: 0 },
            text: String::new(),
            calls: Vec::new(),
            next: 0,
            completed: Vec::new(),
            recorded: 0,
            saw_cancelled: false,
            concurrent: false,
        };
        assert(turn.prompt_tokens.deep_view() =~= Seq::empty());
        assert(turn.text@ =~= Seq::empty());
        assert(turn.calls.deep_view() =~= Seq::empty());
        assert(turn.completed.deep_view() =~= Seq::empty());
        (turn, TurnAction::ArchiveOldResults)
    }

    /// Adds the event that ends the turn.
    fn send_complete(
        &self,
        effects: &mut Vec<Effect>,
        session_id: SessionId,
        duration_us: u64,
        status: TurnStatus,
    )
        ensures
            final(effects).deep_view() == old(effects).deep_view().push(
                turn_complete(self.deep_view(), session_id, duration_us, status),
            ),
    {
        send(
            effects,
            CoreOutput::TurnComplete {
                session_id,
                duration_us,
                status,
                usage: self.usage,
                cache_usage: self.cache_usage,
            },
        );
    }

    /// Ends the turn with an error.
    fn fail(
        &mut self,
        session: &mut Session,
        effects: &mut Vec<Effect>,
        error: CoreError,
        duration_us: u64,
        why: String,
    ) -> (action: TurnAction)
        ensures
            moved(
                failed(
                    old(self).deep_view(),
                    old(session).deep_view(),
                    old(effects).deep_view(),
                    error.deep_view(),
                    duration_us,
                    why@,
                ),
                *final(self),
                *final(session),
                *final(effects),
                action,
            ),
    {
        session.state = SessionState::Idle;
        send_state(effects, session.id, SessionState::Idle);
        send(effects, CoreOutput::SessionError { session_id: session.id, error });
        self.send_complete(effects, session.id, duration_us, TurnStatus::Failed);
        self.phase = TurnPhase::Over;
        TurnAction::Finished(TurnOutcome::Failed(why))
    }

    /// Asks the model, unless the session was stopped.
    fn proceed(
        &mut self,
        session: &mut Session,
        effects: &mut Vec<Effect>,
        duration_us: u64,
    ) -> (action: TurnAction)
        requires
            old(effects)@.len() == 0,
        ensures
            moved(
                ready(old(self).deep_view(), old(session).deep_view(), duration_us),
                *final(self),
                *final(session),
                *final(effects),
                action,
            ),
    {
        assert(effects.deep_view() =~= Seq::empty());
        if session.interrupted {
            self.send_complete(effects, session.id, duration_us, TurnStatus::Cancelled);
            self.phase = TurnPhase::Over;
            assert(effects.deep_view() =~= ready(
                old(self).deep_view(),
                old(session).deep_view(),
                duration_us,
            ).effects);
            TurnAction::Finished(TurnOutcome::Cancelled)
        } else {
            self.phase = TurnPhase::Building;
            TurnAction::BuildMessages
        }
    }

    /// Puts the archives into the history, and goes on.
    fn archived(
        &mut self,
        session: &mut Session,
        effects: &mut Vec<Effect>,
        archives: &Vec<Option<String>>,
        duration_us: u64,
    ) -> (action: TurnAction)
        requires
            old(effects)@.len() == 0,
            archives@.len() == old(session).history@.len(),
        ensures
            moved(
                after_archiving(
                    old(self).deep_view(),
                    old(session).deep_view(),
                    archives.deep_view(),
                    duration_us,
                ),
                *final(self),
                *final(session),
                *final(effects),
                action,
            ),
    {
        session.history = replace_archived_tool_results(&session.history, archives);
        if should_auto_compact_at(
            session.max_context_window,
            session.last_input_tokens,
            session.auto_compact_threshold_percent,
        ) {
            assert(effects.deep_view() =~= Seq::empty());
            self.phase = TurnPhase::Compacting;
            TurnAction::Compact
        } else {
            self.proceed(session, effects, duration_us)
        }
    }

    /// Sends the messages to the model.
    fn built(
        &mut self,
        session: &mut Session,
        effects: &Vec<Effect>,
        messages: Vec<Message>,
    ) -> (action: TurnAction)
        requires
            effects@.len() == 0,
        ensures
            moved(
                after_building(
                    old(self).deep_view(),
                    old(session).deep_view(),
                    messages.deep_view(),
                ),
                *final(self),
                *final(session),
                *effects,
                action,
            ),
    {
        assert(effects.deep_view() =~= Seq::empty());
        session.diagnostics = Some(session.diagnostics_of_turn());
        let tokens = canonicalize_prompt_cache_tokens(&messages, &session.tools);
        self.prompt_usage = estimate_prompt_cache_usage(&session.last_prompt_cache_tokens, &tokens);
        self.prompt_tokens = tokens;
        self.phase = TurnPhase::Calling;
        let tools = session.tools.clone();
        assert(tools.deep_view() =~= session.tools.deep_view());
        TurnAction::CallModel { messages, tools }
    }

    /// Notes what an answer has used.
    fn account(&mut self, session: &mut Session, usage: Option<TokenUsage>)
        requires
            usage_fits(old(self).deep_view(), usage),
        ensures
            final(self).deep_view() == accounted(old(self).deep_view(), usage),
            final(session).deep_view() == noted(
                old(self).deep_view(),
                old(session).deep_view(),
                usage,
            ),
    {
        self.cache_usage = Some(add_cache_usage(self.cache_usage, self.prompt_usage));
        self.usage = add_usage(self.usage, usage);
        session.last_input_tokens = match usage {
            Some(usage) => Some(usage.input_tokens),
            None => None,
        };
        let tokens = self.prompt_tokens.clone();
        assert(tokens.deep_view() =~= self.prompt_tokens.deep_view());
        session.last_prompt_cache_tokens = Some(tokens);
    }

    /// Ends the turn with its answer.
    fn complete(
        &mut self,
        session: &mut Session,
        effects: &mut Vec<Effect>,
        duration_us: u64,
    ) -> (action: TurnAction)
        ensures
            moved(
                completed(
                    old(self).deep_view(),
                    old(session).deep_view(),
                    old(effects).deep_view(),
                    duration_us,
                ),
                *final(self),
                *final(session),
                *final(effects),
                action,
            ),
    {
        let text = self.text.clone();
        send(
            effects,
            CoreOutput::TextComplete { session_id: session.id, full_text: self.text.clone() },
        );
        session.state = SessionState::Idle;
        self.send_complete(effects, session.id, duration_us, TurnStatus::Success);
        send_state(effects, session.id, SessionState::Idle);
        add_effect(effects, Effect::ConsiderMemoryRefresh);
        add_effect(effects, Effect::Checkpoint);
        self.phase = TurnPhase::Over;
        let answer = Some(text);
        assert(answer.deep_view() == Some(text@));
        TurnAction::Finished(TurnOutcome::Completed(answer))
    }

    /// Whether a status report is due at the end.
    fn is_end_report_due(&self, session: &Session) -> (r: bool)
        ensures
            r == end_report_due(self.deep_view().host, session.deep_view()),
    {
        let threshold: u32 = if session.config.status_report_min_tool_rounds == 0 {
            1
        } else {
            session.config.status_report_min_tool_rounds
        };
        match self.host {
            Host::Actor => should_emit_completed_status_report(
                session.current_turn_tool_rounds,
                threshold,
                session.status_report.is_some(),
            ),
            Host::Core => session.current_turn_tool_rounds >= threshold,
        }
    }

    /// Whether a status report is due after a round of tools.
    fn is_progress_report_due(&self, session: &Session) -> (r: bool)
        ensures
            r == progress_report_due(self.deep_view().host, session.deep_view()),
    {
        let threshold: u32 = if session.config.status_report_min_tool_rounds == 0 {
            1
        } else {
            session.config.status_report_min_tool_rounds
        };
        match self.host {
            Host::Actor => should_emit_periodic_status_report(
                session.current_turn_tool_rounds,
                threshold,
            ),
            Host::Core => session.current_turn_tool_rounds >= threshold,
        }
    }

    /// Takes an answer that is text.
    fn answered(
        &mut self,
        session: &mut Session,
        effects: &mut Vec<Effect>,
        text: String,
        usage: Option<TokenUsage>,
        duration_us: u64,
    ) -> (action: TurnAction)
        requires
            old(effects)@.len() == 0,
            usage_fits(old(self).deep_view(), usage),
        ensures
            moved(
                after_text(
                    old(self).deep_view(),
                    old(session).deep_view(),
                    text@,
                    usage,
                    duration_us,
                ),
                *final(self),
                *final(session),
                *final(effects),
                action,
            ),
    {
        assert(effects.deep_view() =~= Seq::empty());
        self.account(session, usage);
        tell(session, Message::assistant(text.clone()));
        self.text = text;
        if self.is_end_report_due(session) {
            self.phase = TurnPhase::ReportingEnd;
            TurnAction::GenerateReport { stage: StatusReportStage::Completed, calls: 0 }
        } else {
            self.complete(session, effects, duration_us)
        }
    }

    /// Ends the turn because a tool was cancelled.
    fn cancel(
        &mut self,
        session: &mut Session,
        effects: &mut Vec<Effect>,
        duration_us: u64,
        refresh: bool,
    ) -> (action: TurnAction)
        ensures
            moved(
                cancelled(
                    old(self).deep_view(),
                    old(session).deep_view(),
                    old(effects).deep_view(),
                    duration_us,
                    refresh,
                ),
                *final(self),
                *final(session),
                *final(effects),
                action,
            ),
    {
        replace_report(session, effects, None);
        session.cancel_armed = false;
        session.state = SessionState::Idle;
        send_state(effects, session.id, SessionState::Idle);
        self.send_complete(effects, session.id, duration_us, TurnStatus::Cancelled);
        if refresh {
            add_effect(effects, Effect::ConsiderMemoryRefresh);
        }
        add_effect(effects, Effect::Checkpoint);
        self.phase = TurnPhase::Over;
        TurnAction::Finished(TurnOutcome::Cancelled)
    }

    /// Goes on when all results are in the history.
    fn finish_round(
        &mut self,
        session: &mut Session,
        effects: &mut Vec<Effect>,
        duration_us: u64,
    ) -> (action: TurnAction)
        ensures
            moved(
                all_recorded(
                    old(self).deep_view(),
                    old(session).deep_view(),
                    old(effects).deep_view(),
                    duration_us,
                ),
                *final(self),
                *final(session),
                *final(effects),
                action,
            ),
    {
        if self.saw_cancelled {
            self.cancel(session, effects, duration_us, true)
        } else if self.is_progress_report_due(session) {
            self.phase = TurnPhase::ReportingProgress;
            TurnAction::GenerateReport {
                stage: StatusReportStage::ReviewingResults,
                calls: self.completed.len(),
            }
        } else {
            self.phase = TurnPhase::Archiving;
            TurnAction::ArchiveOldResults
        }
    }

    /// Puts the next result into the history.
    fn record(
        &mut self,
        session: &mut Session,
        effects: &mut Vec<Effect>,
        duration_us: u64,
    ) -> (action: TurnAction)
        ensures
            moved(
                record_next(
                    old(self).deep_view(),
                    old(session).deep_view(),
                    old(effects).deep_view(),
                    duration_us,
                ),
                *final(self),
                *final(session),
                *final(effects),
                action,
            ),
    {
        if self.recorded >= self.completed.len() {
            return self.finish_round(session, effects, duration_us);
        }
        let ended = &self.completed[self.recorded];
        assert(ended.deep_view() == self.deep_view().completed[self.recorded as int]);
        let (output, is_error) = ended.result.output_text();
        let action = TurnAction::PrepareResult {
            tool_use_id: ended.tool_use_id.clone(),
            tool_name: ended.tool_name.clone(),
            output: output.clone(),
            is_error,
        };
        send(
            effects,
            CoreOutput::ToolResult {
                session_id: session.id,
                tool_use_id: ended.tool_use_id.clone(),
                tool_name: ended.tool_name.clone(),
                content: output,
                is_error,
                duration_us: ended.duration_us,
            },
        );
        self.phase = TurnPhase::Recording;
        action
    }

    /// Runs the next tool, unless the session was stopped.
    fn run(
        &mut self,
        session: &mut Session,
        effects: &mut Vec<Effect>,
        duration_us: u64,
    ) -> (action: TurnAction)
        ensures
            moved(
                run_next(
                    old(self).deep_view(),
                    old(session).deep_view(),
                    old(effects).deep_view(),
                    duration_us,
                ),
                *final(self),
                *final(session),
                *final(effects),
                action,
            ),
    {
        if self.next >= self.calls.len() {
            return self.record(session, effects, duration_us);
        }
        if session.interrupted {
            send_state(effects, session.id, SessionState::Idle);
            self.send_complete(effects, session.id, duration_us, TurnStatus::Cancelled);
            self.phase = TurnPhase::Over;
            return TurnAction::Finished(TurnOutcome::Cancelled);
        }
        let call = self.calls[self.next].clone();
        assert(call.deep_view() == self.deep_view().calls[self.next as int]);
        send_request(effects, session.id, &call);
        self.phase = TurnPhase::Running;
        TurnAction::RunTool(call)
    }

    /// Takes an answer that calls tools.
    fn called(
        &mut self,
        session: &mut Session,
        effects: &mut Vec<Effect>,
        text_before: Option<String>,
        calls: Vec<PendingToolCall>,
        usage: Option<TokenUsage>,
        duration_us: u64,
    ) -> (action: TurnAction)
        requires
            old(effects)@.len() == 0,
            usage_fits(old(self).deep_view(), usage),
        ensures
            moved(
                after_calls(
                    old(self).deep_view(),
                    old(session).deep_view(),
                    text_before.deep_view(),
                    calls.deep_view(),
                    usage,
                    duration_us,
                ),
                *final(self),
                *final(session),
                *final(effects),
                action,
            ),
    {
        assert(effects.deep_view() =~= Seq::empty());
        self.account(session, usage);
        if let Some(text) = &text_before {
            send(
                effects,
                CoreOutput::TextComplete { session_id: session.id, full_text: text.clone() },
            );
            assert(effects.deep_view() =~= seq![
                EffectView::Output(
                    CoreOutputView::TextComplete { session_id: session.id, full_text: text@ },
                ),
            ]);
        }
        let wanted = requests_for(&calls);
        tell(session, Message::assistant_tool_use(text_before, wanted));
        if session.current_turn_tool_rounds < u32::MAX {
            session.current_turn_tool_rounds = session.current_turn_tool_rounds + 1;
        }
        self.calls = resolve_calls(&session.history, &calls);
        self.next = 0;
        self.completed = Vec::new();
        assert(self.completed.deep_view() =~= Seq::empty());
        self.recorded = 0;
        self.saw_cancelled = false;
        self.concurrent = match self.host {
            Host::Actor => false,
            Host::Core => tool_batch_is_concurrency_eligible(&session.registry, &self.calls),
        };
        if self.concurrent {
            send_requests(effects, session.id, &self.calls);
            self.phase = TurnPhase::RunningBatch;
            let batch = self.calls.clone();
            assert(batch.deep_view() =~= self.calls.deep_view());
            TurnAction::RunBatch(batch)
        } else {
            self.run(session, effects, duration_us)
        }
    }

    /// Takes the result of a tool.
    fn tool_finished(
        &mut self,
        session: &mut Session,
        effects: &mut Vec<Effect>,
        outcome: ToolOutcome,
        tool_us: u64,
        duration_us: u64,
    ) -> (action: TurnAction)
        requires
            old(effects)@.len() == 0,
            old(self).next < old(self).calls@.len(),
        ensures
            moved(
                after_tool(
                    old(self).deep_view(),
                    old(session).deep_view(),
                    outcome.deep_view(),
                    tool_us,
                    duration_us,
                ),
                *final(self),
                *final(session),
                *final(effects),
                action,
            ),
    {
        assert(effects.deep_view() =~= Seq::empty());
        let call = &self.calls[self.next];
        assert(call.deep_view() == self.deep_view().calls[self.next as int]);
        let ended = CompletedToolCall {
            index: self.completed.len(),
            tool_use_id: call.tool_use_id.clone(),
            tool_name: call.tool_name.clone(),
            arguments: call.arguments.clone(),
            result: outcome,
            duration_us: tool_us,
        };
        let ghost before = self.completed.deep_view();
        self.completed.push(ended);
        assert(self.completed.deep_view() =~= before.push(ended.deep_view()));
        assert(self.calls.len() == self.calls@.len());
        self.next = self.next + 1;
        self.run(session, effects, duration_us)
    }

    /// Puts a result into the history, and goes on.
    fn prepared(
        &mut self,
        session: &mut Session,
        effects: &mut Vec<Effect>,
        output: String,
        duration_us: u64,
    ) -> (action: TurnAction)
        requires
            old(effects)@.len() == 0,
            old(self).recorded < old(self).completed@.len(),
        ensures
            moved(
                after_preparing(
                    old(self).deep_view(),
                    old(session).deep_view(),
                    output@,
                    duration_us,
                ),
                *final(self),
                *final(session),
                *final(effects),
                action,
            ),
    {
        assert(effects.deep_view() =~= Seq::empty());
        let ended = &self.completed[self.recorded];
        assert(ended.deep_view() == self.deep_view().completed[self.recorded as int]);
        let (_, is_error) = ended.result.output_text();
        let was_cancelled = ended.result.is_cancelled();
        let change = plan_update(ended.tool_name.as_str(), &ended.arguments);
        tell(session, Message::tool_result(ended.tool_use_id.clone(), output, is_error));
        if was_cancelled && session.suspended_wait.is_some() {
            self.phase = TurnPhase::Over;
            return TurnAction::Finished(TurnOutcome::Suspended);
        }
        if was_cancelled && self.host == Host::Core && !self.concurrent {
            return self.cancel(session, effects, duration_us, false);
        }
        self.saw_cancelled = self.saw_cancelled || was_cancelled;
        match change {
            Some((plan_id, action_id)) => {
                self.phase = TurnPhase::Planning;
                TurnAction::ShowPlan { plan_id, action_id }
            },
            None => {
                assert(self.completed.len() == self.completed@.len());
                self.recorded = self.recorded + 1;
                self.record(session, effects, duration_us)
            },
        }
    }

    /// Shows how a plan has moved on, and goes on.
    fn planned(
        &mut self,
        session: &mut Session,
        effects: &mut Vec<Effect>,
        plan: Option<PlanState>,
        duration_us: u64,
    ) -> (action: TurnAction)
        requires
            old(effects)@.len() == 0,
            old(self).deep_view().phase == TurnPhase::Planning,
            consistent(old(self).deep_view()),
        ensures
            moved(
                after_plan(
                    old(self).deep_view(),
                    old(session).deep_view(),
                    plan.deep_view(),
                    duration_us,
                ),
                *final(self),
                *final(session),
                *final(effects),
                action,
            ),
    {
        assert(effects.deep_view() =~= Seq::empty());
        let ended = &self.completed[self.recorded];
        assert(ended.deep_view() == self.deep_view().completed[self.recorded as int]);
        let change = plan_update(ended.tool_name.as_str(), &ended.arguments);
        if let (Some(plan), Some((plan_id, action_id))) = (&plan, &change) {
            match self.host {
                Host::Actor => {
                    if let Some(output) = plan_progress(
                        session.id,
                        plan,
                        plan_id.as_str(),
                        action_id.as_str(),
                    ) {
                        send(effects, output);
                        assert(effects.deep_view() =~= seq![
                            EffectView::Output(output.deep_view()),
                        ]);
                    }
                },
                Host::Core => {
                    let (output, message) = plan_progress_with_prompt(
                        session.id,
                        plan,
                        plan_id.as_str(),
                        action_id.as_str(),
                    );
                    send(effects, output);
                    assert(effects.deep_view() =~= seq![EffectView::Output(output.deep_view())]);
                    if let Some(message) = message {
                        tell(session, message);
                    }
                },
            }
        }
        self.recorded = self.recorded + 1;
        self.record(session, effects, duration_us)
    }

    /// Takes what became of a request to the model.
    fn model_answered(
        &mut self,
        session: &mut Session,
        effects: &mut Vec<Effect>,
        outcome: ModelOutcome,
        duration_us: u64,
    ) -> (action: TurnAction)
        requires
            old(effects)@.len() == 0,
            awaited(
                old(self).deep_view(),
                old(session).deep_view(),
                TurnEventView::Model(outcome.deep_view()),
            ),
        ensures
            moved(
                after_model(
                    old(self).deep_view(),
                    old(session).deep_view(),
                    outcome.deep_view(),
                    duration_us,
                ),
                *final(self),
                *final(session),
                *final(effects),
                action,
            ),
    {
        assert(effects.deep_view() =~= Seq::empty());
        match outcome {
            ModelOutcome::Interrupted => {
                let ghost told = report_effects(session.deep_view(), None);
                replace_report(session, effects, None);
                assert(effects.deep_view() =~= told);
                send_state(effects, session.id, SessionState::Idle);
                self.send_complete(effects, session.id, duration_us, TurnStatus::Cancelled);
                self.phase = TurnPhase::Over;
                TurnAction::Finished(TurnOutcome::Cancelled)
            },
            ModelOutcome::Failed(error) => {
                let ghost told = report_effects(session.deep_view(), None);
                replace_report(session, effects, None);
                assert(effects.deep_view() =~= told);
                self.fail(session, effects, error, duration_us, "session error".to_owned())
            },
            ModelOutcome::Answered(ModelReply::Text { text, usage }) => self.answered(
                session,
                effects,
                text,
                usage,
                duration_us,
            ),
            ModelOutcome::Answered(
                ModelReply::ToolCalls { text_before, calls, usage },
            ) => self.called(session, effects, text_before, calls, usage, duration_us),
        }
    }

    /// Takes an event, and says what comes next.
    #[verifier::rlimit(60)]
    #[verifier::spinoff_prover]
    fn dispatch(&mut self, session: &mut Session, event: TurnEvent, duration_us: u64) -> (r: (
        Vec<Effect>,
        TurnAction,
    ))
        requires
            consistent(old(self).deep_view()),
            awaited(old(self).deep_view(), old(session).deep_view(), event.deep_view()),
        ensures
            moved(
                turn_move(
                    old(self).deep_view(),
                    old(session).deep_view(),
                    event.deep_view(),
                    duration_us,
                ),
                *final(self),
                *final(session),
                r.0,
                r.1,
            ),
    {
        let mut effects: Vec<Effect> = Vec::new();
        assert(effects.deep_view() =~= Seq::empty());
        let action = match event {
            TurnEvent::Archived(archives) => self.archived(
                session,
                &mut effects,
                &archives,
                duration_us,
            ),
            TurnEvent::ArchivingFailed(error) => self.fail(
                session,
                &mut effects,
                error,
                duration_us,
                "session error".to_owned(),
            ),
            TurnEvent::CompactionFailed(error) => self.fail(
                session,
                &mut effects,
                error,
                duration_us,
                "session error".to_owned(),
            ),
            TurnEvent::BuildingFailed(error) => self.fail(
                session,
                &mut effects,
                error,
                duration_us,
                "session error".to_owned(),
            ),
            TurnEvent::Compacted => self.proceed(session, &mut effects, duration_us),
            TurnEvent::Built(messages) => self.built(session, &effects, messages),
            TurnEvent::Model(outcome) => self.model_answered(
                session,
                &mut effects,
                outcome,
                duration_us,
            ),
            TurnEvent::Reported(report) => {
                let ghost told = report_effects(session.deep_view(), Some(report.deep_view()));
                let at_end = self.phase == TurnPhase::ReportingEnd;
                replace_report(session, &mut effects, Some(report));
                assert(effects.deep_view() =~= told);
                if at_end {
                    self.complete(session, &mut effects, duration_us)
                } else {
                    self.phase = TurnPhase::Archiving;
                    TurnAction::ArchiveOldResults
                }
            },
            TurnEvent::ToolFinished { outcome, duration_us: tool_us } => self.tool_finished(
                session,
                &mut effects,
                outcome,
                tool_us,
                duration_us,
            ),
            TurnEvent::BatchFinished(ended) => {
                self.completed = ended;
                self.record(session, &mut effects, duration_us)
            },
            TurnEvent::Prepared(output) => self.prepared(
                session,
                &mut effects,
                output,
                duration_us,
            ),
            TurnEvent::PreparingFailed(error) => {
                session.cancel_armed = false;
                let why = error.text();
                self.fail(session, &mut effects, error, duration_us, why)
            },
            TurnEvent::Plan(plan) => self.planned(session, &mut effects, plan, duration_us),
        };
        (effects, action)
    }

    /// Takes an event, and says what comes next. `duration_us` is the time since the turn
    /// began. The totals of tokens have to have room for an answer.
    pub fn step(&mut self, session: &mut Session, event: TurnEvent, duration_us: u64) -> (r: (
        Vec<Effect>,
        TurnAction,
    ))
        requires
            consistent(old(self).deep_view()),
            awaited(old(self).deep_view(), old(session).deep_view(), event.deep_view()),
        ensures
            moved(
                turn_move(
                    old(self).deep_view(),
                    old(session).deep_view(),
                    event.deep_view(),
                    duration_us,
                ),
                *final(self),
                *final(session),
                r.0,
                r.1,
            ),
            consistent(final(self).deep_view()),
    {
        let ghost came = event;
        proof {
            match came {
                TurnEvent::BatchFinished(ended) => {
                    assert(ended.len() == ended.deep_view().len());
                },
                TurnEvent::Model(
                    ModelOutcome::Answered(ModelReply::ToolCalls { calls, .. }),
                ) => {
                    assert(calls.len() == calls.deep_view().len());
                },
                _ => {},
            }
            law_turn_stays_consistent(
                self.deep_view(),
                session.deep_view(),
                event.deep_view(),
                duration_us,
            );
        }
        self.dispatch(session, event, duration_us)
    }
}

} // verus!
