//! What sessions, tools and the harness say to each other.

use vstd::prelude::*;

use crate::arguments::{Arguments, ArgumentsView};
use crate::error::{CoreError, CoreErrorView};
use crate::message::{PromptCacheUsage, TokenUsage};
use crate::session::{ExitStatus, ExitStatusView, SessionId, SessionState};
use crate::status_report::{SessionStatusReport, SessionStatusReportView};

verus! {

/// Whose messages a session waits for.
#[derive(Clone, Copy, Debug, PartialEq, Eq, Structural)]
pub enum MessageSource {
    /// Those of every session.
    Any,
    /// Those of one session.
    Session(SessionId),
}

impl DeepView for MessageSource {
    type V = MessageSource;

    open spec fn deep_view(&self) -> MessageSource {
        *self
    }
}

/// A message from one session to another.
#[derive(Debug)]
pub struct MailboxMessage {
    pub from: SessionId,
    pub content: String,
}

/// The model of [`MailboxMessage`].
#[verifier::ext_equal]
pub struct MailboxMessageView {
    pub from: SessionId,
    pub content: Seq<char>,
}

impl DeepView for MailboxMessage {
    type V = MailboxMessageView;

    open spec fn deep_view(&self) -> MailboxMessageView {
        MailboxMessageView {
            from: self.from,
            content: self.content.deep_view(),
        }
    }
}

impl Clone for MailboxMessage {
    fn clone(&self) -> (r: Self)
        ensures
            r.deep_view() == self.deep_view(),
    {
        MailboxMessage {
            from: self.from,
            content: self.content.clone(),
        }
    }
}

/// How a tool call ended.
#[derive(Debug)]
pub enum ToolOutcome {
    /// The tool succeeded with this output.
    Success { output: String },
    /// The tool failed.
    Error { message: String },
    /// The call was cancelled.
    Cancelled,
}

/// The model of [`ToolOutcome`].
#[verifier::ext_equal]
pub enum ToolOutcomeView {
    Success { output: Seq<char> },
    Error { message: Seq<char> },
    Cancelled,
}

impl DeepView for ToolOutcome {
    type V = ToolOutcomeView;

    open spec fn deep_view(&self) -> ToolOutcomeView {
        match *self {
            ToolOutcome::Success { output } => ToolOutcomeView::Success {
                output: output.deep_view(),
            },
            ToolOutcome::Error { message } => ToolOutcomeView::Error {
                message: message.deep_view(),
            },
            ToolOutcome::Cancelled => ToolOutcomeView::Cancelled,
        }
    }
}

impl Clone for ToolOutcome {
    fn clone(&self) -> (r: Self)
        ensures
            r.deep_view() == self.deep_view(),
    {
        match self {
            ToolOutcome::Success { output } => {
                ToolOutcome::Success { output: output.clone() }
            },
            ToolOutcome::Error { message } => {
                ToolOutcome::Error { message: message.clone() }
            },
            ToolOutcome::Cancelled => ToolOutcome::Cancelled,
        }
    }
}

/// How a turn ended.
#[derive(Clone, Copy, Debug, PartialEq, Eq, Structural)]
pub enum TurnStatus {
    Success,
    Failed,
    Cancelled,
}

impl DeepView for TurnStatus {
    type V = TurnStatus;

    open spec fn deep_view(&self) -> TurnStatus {
        *self
    }
}

/// A question to the user.
#[derive(Debug)]
pub struct InteractionRequest {
    pub prompt: String,
    pub options: Vec<String>,
    /// Who asks.
    pub source_label: Option<String>,
}

/// The model of [`InteractionRequest`].
#[verifier::ext_equal]
pub struct InteractionRequestView {
    pub prompt: Seq<char>,
    pub options: Seq<Seq<char>>,
    pub source_label: Option<Seq<char>>,
}

impl DeepView for InteractionRequest {
    type V = InteractionRequestView;

    open spec fn deep_view(&self) -> InteractionRequestView {
        InteractionRequestView {
            prompt: self.prompt.deep_view(),
            options: self.options.deep_view(),
            source_label: self.source_label.deep_view(),
        }
    }
}

impl Clone for InteractionRequest {
    fn clone(&self) -> (r: Self)
        ensures
            r.deep_view() == self.deep_view(),
    {
        let r = InteractionRequest {
            prompt: self.prompt.clone(),
            options: self.options.clone(),
            source_label: self.source_label.clone(),
        };
        assert(r.options.deep_view() =~= self.options.deep_view());
        assert(r.source_label.deep_view() =~= self.source_label.deep_view());
        r
    }
}

/// The answer of the user.
#[derive(Debug)]
pub struct InteractionResponse {
    pub response: String,
    pub selected_indices: Vec<usize>,
}

/// The model of [`InteractionResponse`].
#[verifier::ext_equal]
pub struct InteractionResponseView {
    pub response: Seq<char>,
    pub selected_indices: Seq<usize>,
}

impl DeepView for InteractionResponse {
    type V = InteractionResponseView;

    open spec fn deep_view(&self) -> InteractionResponseView {
        InteractionResponseView {
            response: self.response.deep_view(),
            selected_indices: self.selected_indices.deep_view(),
        }
    }
}

impl Clone for InteractionResponse {
    fn clone(&self) -> (r: Self)
        ensures
            r.deep_view() == self.deep_view(),
    {
        let r = InteractionResponse {
            response: self.response.clone(),
            selected_indices: self.selected_indices.clone(),
        };
        assert(r.selected_indices.deep_view() =~= self.selected_indices.deep_view());
        r
    }
}

/// Events that the core sends to the harness.
#[allow(inconsistent_fields)]
#[derive(Debug)]
pub enum CoreOutput {
    /// A partial reasoning token of the model.
    ReasoningDelta { session_id: SessionId, delta: String },
    /// A partial text token of the model.
    StreamDelta { session_id: SessionId, delta: String },
    /// The model has finished a text.
    TextComplete { session_id: SessionId, full_text: String },
    /// A turn has begun.
    TurnStarted { session_id: SessionId, turn_id: String },
    /// A tool is about to run.
    ToolRequest {
        session_id: SessionId,
        tool_use_id: String,
        tool_name: String,
        arguments: Arguments,
    },
    /// The state of a session changed.
    SessionStateChanged { session_id: SessionId, state: SessionState },
    /// An error inside a session.
    SessionError { session_id: SessionId, error: CoreError },
    /// A tool needs the user.
    InteractionNeeded { session_id: SessionId, request: InteractionRequest },
    /// A plan has moved on.
    PlanProgress {
        session_id: SessionId,
        plan_id: String,
        action_id: String,
        status: String,
        remaining: usize,
        total: usize,
    },
    /// The status report of a session changed.
    SessionStatusReport { session_id: SessionId, report: Option<SessionStatusReport> },
    /// A child session was made.
    ChildSpawned { parent_id: SessionId, child_id: SessionId },
    /// A child session has ended.
    ChildExited { parent_id: SessionId, child_id: SessionId, status: ExitStatus },
    /// A message was put into a mailbox.
    MessageReceived { session_id: SessionId, from: SessionId, content: String },
    /// A tool has ended.
    ToolResult {
        session_id: SessionId,
        tool_use_id: String,
        tool_name: String,
        content: String,
        is_error: bool,
        duration_us: u64,
    },
    /// A turn has ended.
    TurnComplete {
        session_id: SessionId,
        duration_us: u64,
        status: TurnStatus,
        usage: Option<TokenUsage>,
        cache_usage: Option<PromptCacheUsage>,
    },
    /// The sessions have to be saved.
    CheckpointRequested,
}

/// The model of [`CoreOutput`].
#[allow(inconsistent_fields)]
#[verifier::ext_equal]
pub enum CoreOutputView {
    ReasoningDelta { session_id: SessionId, delta: Seq<char> },
    StreamDelta { session_id: SessionId, delta: Seq<char> },
    TextComplete { session_id: SessionId, full_text: Seq<char> },
    TurnStarted { session_id: SessionId, turn_id: Seq<char> },
    ToolRequest {
        session_id: SessionId,
        tool_use_id: Seq<char>,
        tool_name: Seq<char>,
        arguments: ArgumentsView,
    },
    SessionStateChanged { session_id: SessionId, state: SessionState },
    SessionError { session_id: SessionId, error: CoreErrorView },
    InteractionNeeded { session_id: SessionId, request: InteractionRequestView },
    PlanProgress {
        session_id: SessionId,
        plan_id: Seq<char>,
        action_id: Seq<char>,
        status: Seq<char>,
        remaining: usize,
        total: usize,
    },
    SessionStatusReport { session_id: SessionId, report: Option<SessionStatusReportView> },
    ChildSpawned { parent_id: SessionId, child_id: SessionId },
    ChildExited { parent_id: SessionId, child_id: SessionId, status: ExitStatusView },
    MessageReceived { session_id: SessionId, from: SessionId, content: Seq<char> },
    ToolResult {
        session_id: SessionId,
        tool_use_id: Seq<char>,
        tool_name: Seq<char>,
        content: Seq<char>,
        is_error: bool,
        duration_us: u64,
    },
    TurnComplete {
        session_id: SessionId,
        duration_us: u64,
        status: TurnStatus,
        usage: Option<TokenUsage>,
        cache_usage: Option<PromptCacheUsage>,
    },
    CheckpointRequested,
}

impl DeepView for CoreOutput {
    type V = CoreOutputView;

    open spec fn deep_view(&self) -> CoreOutputView {
        match *self {
            CoreOutput::ReasoningDelta { session_id, delta } => CoreOutputView::ReasoningDelta {
                session_id,
                delta: delta.deep_view(),
            },
            CoreOutput::StreamDelta { session_id, delta } => CoreOutputView::StreamDelta {
                session_id,
                delta: delta.deep_view(),
            },
            CoreOutput::TextComplete { session_id, full_text } => CoreOutputView::TextComplete {
                session_id,
                full_text: full_text.deep_view(),
            },
            CoreOutput::TurnStarted { session_id, turn_id } => CoreOutputView::TurnStarted {
                session_id,
                turn_id: turn_id.deep_view(),
            },
            CoreOutput::ToolRequest {
                session_id,
                tool_use_id,
                tool_name,
                arguments,
            } => CoreOutputView::ToolRequest {
                session_id,
                tool_use_id: tool_use_id.deep_view(),
                tool_name: tool_name.deep_view(),
                arguments: arguments.deep_view(),
            },
            CoreOutput::SessionStateChanged {
                session_id,
                state,
            } => CoreOutputView::SessionStateChanged {
                session_id,
                state,
            },
            CoreOutput::SessionError { session_id, error } => CoreOutputView::SessionError {
                session_id,
                error: error.deep_view(),
            },
            CoreOutput::InteractionNeeded {
                session_id,
                request,
            } => CoreOutputView::InteractionNeeded {
                session_id,
                request: request.deep_view(),
            },
            CoreOutput::PlanProgress {
                session_id,
                plan_id,
                action_id,
                status,
                remaining,
                total,
            } => CoreOutputView::PlanProgress {
                session_id,
                plan_id: plan_id.deep_view(),
                action_id: action_id.deep_view(),
                status: status.deep_view(),
                remaining,
                total,
            },
            CoreOutput::SessionStatusReport {
                session_id,
                report,
            } => CoreOutputView::SessionStatusReport {
                session_id,
                report: report.deep_view(),
            },
            CoreOutput::ChildSpawned { parent_id, child_id } => CoreOutputView::ChildSpawned {
                parent_id,
                child_id,
            },
            CoreOutput::ChildExited { parent_id, child_id, status } => CoreOutputView::ChildExited {
                parent_id,
                child_id,
                status: status.deep_view(),
            },
            CoreOutput::MessageReceived {
                session_id,
                from,
                content,
            } => CoreOutputView::MessageReceived {
                session_id,
                from,
                content: content.deep_view(),
            },
            CoreOutput::ToolResult {
                session_id,
                tool_use_id,
                tool_name,
                content,
                is_error,
                duration_us,
            } => CoreOutputView::ToolResult {
                session_id,
                tool_use_id: tool_use_id.deep_view(),
                tool_name: tool_name.deep_view(),
                content: content.deep_view(),
                is_error,
                duration_us,
            },
            CoreOutput::TurnComplete {
                session_id,
                duration_us,
                status,
                usage,
                cache_usage,
            } => CoreOutputView::TurnComplete {
                session_id,
                duration_us,
                status,
                usage,
                cache_usage,
            },
            CoreOutput::CheckpointRequested => CoreOutputView::CheckpointRequested,
        }
    }
}

impl Clone for CoreOutput {
    fn clone(&self) -> (r: Self)
        ensures
            r.deep_view() == self.deep_view(),
    {
        match self {
            CoreOutput::ReasoningDelta { session_id, delta } => {
                CoreOutput::ReasoningDelta { session_id: *session_id, delta: delta.clone() }
            },
            CoreOutput::StreamDelta { session_id, delta } => {
                CoreOutput::StreamDelta { session_id: *session_id, delta: delta.clone() }
            },
            CoreOutput::TextComplete { session_id, full_text } => {
                CoreOutput::TextComplete { session_id: *session_id, full_text: full_text.clone() }
            },
            CoreOutput::TurnStarted { session_id, turn_id } => {
                CoreOutput::TurnStarted { session_id: *session_id, turn_id: turn_id.clone() }
            },
            CoreOutput::ToolRequest { session_id, tool_use_id, tool_name, arguments } => {
                CoreOutput::ToolRequest {
                    session_id: *session_id,
                    tool_use_id: tool_use_id.clone(),
                    tool_name: tool_name.clone(),
                    arguments: arguments.clone(),
                }
            },
            CoreOutput::SessionStateChanged { session_id, state } => {
                CoreOutput::SessionStateChanged { session_id: *session_id, state: *state }
            },
            CoreOutput::SessionError { session_id, error } => {
                CoreOutput::SessionError { session_id: *session_id, error: error.clone() }
            },
            CoreOutput::InteractionNeeded { session_id, request } => {
                CoreOutput::InteractionNeeded { session_id: *session_id, request: request.clone() }
            },
            CoreOutput::PlanProgress {
                session_id,
                plan_id,
                action_id,
                status,
                remaining,
                total,
            } => {
                CoreOutput::PlanProgress {
                    session_id: *session_id,
                    plan_id: plan_id.clone(),
                    action_id: action_id.clone(),
                    status: status.clone(),
                    remaining: *remaining,
                    total: *total,
                }
            },
            CoreOutput::SessionStatusReport { session_id, report } => {
                let new_report = report.clone();
                assert(new_report.deep_view() =~= report.deep_view());
                CoreOutput::SessionStatusReport { session_id: *session_id, report: new_report }
            },
            CoreOutput::ChildSpawned { parent_id, child_id } => {
                CoreOutput::ChildSpawned { parent_id: *parent_id, child_id: *child_id }
            },
            CoreOutput::ChildExited { parent_id, child_id, status } => {
                CoreOutput::ChildExited {
                    parent_id: *parent_id,
                    child_id: *child_id,
                    status: status.clone(),
                }
            },
            CoreOutput::MessageReceived { session_id, from, content } => {
                CoreOutput::MessageReceived {
                    session_id: *session_id,
                    from: *from,
                    content: content.clone(),
                }
            },
            CoreOutput::ToolResult {
                session_id,
                tool_use_id,
                tool_name,
                content,
                is_error,
                duration_us,
            } => {
                CoreOutput::ToolResult {
                    session_id: *session_id,
                    tool_use_id: tool_use_id.clone(),
                    tool_name: tool_name.clone(),
                    content: content.clone(),
                    is_error: *is_error,
                    duration_us: *duration_us,
                }
            },
            CoreOutput::TurnComplete { session_id, duration_us, status, usage, cache_usage } => {
                CoreOutput::TurnComplete {
                    session_id: *session_id,
                    duration_us: *duration_us,
                    status: *status,
                    usage: *usage,
                    cache_usage: *cache_usage,
                }
            },
            CoreOutput::CheckpointRequested => CoreOutput::CheckpointRequested,
        }
    }
}

/// The place that a reply goes to. The host keeps the channel for it.
#[derive(Clone, Copy, Debug, PartialEq, Eq, Structural)]
pub struct ReplyId(pub u64);

impl DeepView for ReplyId {
    type V = ReplyId;

    open spec fn deep_view(&self) -> ReplyId {
        *self
    }
}

/// Sizes of the channel buffers.
#[derive(Clone, Copy, Debug)]
pub struct ChannelConfig {
    /// From the harness to the core.
    pub input_buffer: usize,
    /// From the core to the harness.
    pub output_buffer: usize,
}

impl Default for ChannelConfig {
    fn default() -> (r: ChannelConfig)
        ensures
            r.input_buffer == 64,
            r.output_buffer == 256,
    {
        ChannelConfig { input_buffer: 64, output_buffer: 256 }
    }
}

/// The text of an outcome, and whether it is an error.
pub open spec fn outcome_text(outcome: ToolOutcomeView) -> (Seq<char>, bool) {
    match outcome {
        ToolOutcomeView::Success { output } => (output, false),
        ToolOutcomeView::Error { message } => (message, true),
        ToolOutcomeView::Cancelled => ("Tool execution was cancelled"@, true),
    }
}

impl ToolOutcome {
    /// The text of the outcome, and whether it is an error.
    pub fn output_text(&self) -> (r: (String, bool))
        ensures
            (r.0@, r.1) == outcome_text(self.deep_view()),
    {
        match self {
            ToolOutcome::Success { output } => (output.clone(), false),
            ToolOutcome::Error { message } => (message.clone(), true),
            ToolOutcome::Cancelled => ("Tool execution was cancelled".to_owned(), true),
        }
    }

    /// Whether the call was cancelled.
    pub fn is_cancelled(&self) -> (r: bool)
        ensures
            r == (self.deep_view() is Cancelled),
    {
        match self {
            ToolOutcome::Cancelled => true,
            _ => false,
        }
    }
}

} // verus!
