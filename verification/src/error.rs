//! What can go wrong inside the core.

use vstd::prelude::*;
use vstd::string::*;

use crate::session::{state_text, SessionState};

verus! {

/// Errors the core can report through the output channel.
#[derive(Debug)]
pub enum CoreError {
    /// The model provider returned an error.
    LlmError { message: String },
    /// The referenced session does not exist.
    SessionNotFound,
    /// An operation that the state of the session does not allow.
    InvalidState { expected: SessionState, actual: SessionState },
    /// A tool result arrived for an unknown call.
    UnknownToolUseId { tool_use_id: String },
    /// Internal error.
    Internal { message: String },
}

/// The model of [`CoreError`].
#[verifier::ext_equal]
pub enum CoreErrorView {
    LlmError { message: Seq<char> },
    SessionNotFound,
    InvalidState { expected: SessionState, actual: SessionState },
    UnknownToolUseId { tool_use_id: Seq<char> },
    Internal { message: Seq<char> },
}

impl DeepView for CoreError {
    type V = CoreErrorView;

    open spec fn deep_view(&self) -> CoreErrorView {
        match *self {
            CoreError::LlmError { message } => CoreErrorView::LlmError {
                message: message.deep_view(),
            },
            CoreError::SessionNotFound => CoreErrorView::SessionNotFound,
            CoreError::InvalidState { expected, actual } => CoreErrorView::InvalidState {
                expected,
                actual,
            },
            CoreError::UnknownToolUseId { tool_use_id } => CoreErrorView::UnknownToolUseId {
                tool_use_id: tool_use_id.deep_view(),
            },
            CoreError::Internal { message } => CoreErrorView::Internal {
                message: message.deep_view(),
            },
        }
    }
}

impl Clone for CoreError {
    fn clone(&self) -> (r: Self)
        ensures
            r.deep_view() == self.deep_view(),
    {
        match self {
            CoreError::LlmError { message } => {
                CoreError::LlmError { message: message.clone() }
            },
            CoreError::SessionNotFound => CoreError::SessionNotFound,
            CoreError::InvalidState { expected, actual } => {
                CoreError::InvalidState { expected: *expected, actual: *actual }
            },
            CoreError::UnknownToolUseId { tool_use_id } => {
                CoreError::UnknownToolUseId { tool_use_id: tool_use_id.clone() }
            },
            CoreError::Internal { message } => {
                CoreError::Internal { message: message.clone() }
            },
        }
    }
}

impl CoreErrorView {
    /// The error as it is shown to a user.
    pub open spec fn text(self) -> Seq<char> {
        match self {
            CoreErrorView::LlmError { message } => "LLM error: "@ + message,
            CoreErrorView::SessionNotFound => "session not found"@,
            CoreErrorView::InvalidState { expected, actual } => "invalid state: expected "@
                + state_text(expected) + ", got "@ + state_text(actual),
            CoreErrorView::UnknownToolUseId { tool_use_id } => "unknown tool_use_id: "@
                + tool_use_id,
            CoreErrorView::Internal { message } => "internal error: "@ + message,
        }
    }
}

impl CoreError {
    /// The error as it is shown to a user.
    pub fn text(&self) -> (r: String)
        ensures
            r@ == self.deep_view().text(),
    {
        match self {
            CoreError::LlmError { message } => {
                let mut r = "LLM error: ".to_owned();
                r.append(message.as_str());
                r
            },
            CoreError::SessionNotFound => "session not found".to_owned(),
            CoreError::InvalidState { expected, actual } => {
                let mut r = "invalid state: expected ".to_owned();
                r.append(expected.name());
                r.append(", got ");
                r.append(actual.name());
                r
            },
            CoreError::UnknownToolUseId { tool_use_id } => {
                let mut r = "unknown tool_use_id: ".to_owned();
                r.append(tool_use_id.as_str());
                r
            },
            CoreError::Internal { message } => {
                let mut r = "internal error: ".to_owned();
                r.append(message.as_str());
                r
            },
        }
    }
}

/// Something that the host could not do for a session.
#[derive(Clone, Copy, Debug, PartialEq, Eq, Structural)]
pub enum FailedTask {
    ArchiveTranscript,
    ArchiveOldResults,
    ArchiveResult,
    PromptMemory,
    Filesystem,
    PythonGroup,
}

impl DeepView for FailedTask {
    type V = FailedTask;

    open spec fn deep_view(&self) -> FailedTask {
        *self
    }
}

/// What could not be done.
pub open spec fn failure_text(task: FailedTask) -> Seq<char> {
    match task {
        FailedTask::ArchiveTranscript => "failed to archive transcript: "@,
        FailedTask::ArchiveOldResults => "failed to archive old tool results: "@,
        FailedTask::ArchiveResult => "failed to archive oversized tool result: "@,
        FailedTask::PromptMemory => "failed to build prompt memory injection: "@,
        FailedTask::Filesystem => "failed to create session filesystem: "@,
        FailedTask::PythonGroup => "failed to restore python group: "@,
    }
}

/// The error for something that the host could not do.
pub fn failure(task: FailedTask, error: &str) -> (r: CoreError)
    ensures
        r.deep_view() == (CoreErrorView::Internal { message: failure_text(task) + error@ }),
{
    let mut message = match task {
        FailedTask::ArchiveTranscript => "failed to archive transcript: ".to_owned(),
        FailedTask::ArchiveOldResults => "failed to archive old tool results: ".to_owned(),
        FailedTask::ArchiveResult => "failed to archive oversized tool result: ".to_owned(),
        FailedTask::PromptMemory => "failed to build prompt memory injection: ".to_owned(),
        FailedTask::Filesystem => "failed to create session filesystem: ".to_owned(),
        FailedTask::PythonGroup => "failed to restore python group: ".to_owned(),
    };
    message.append(error);
    CoreError::Internal { message }
}

} // verus!
