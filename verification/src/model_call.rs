//! One request to the model and the stream of events that answers it.

use vstd::prelude::*;
use vstd::string::*;

use crate::channel::{CoreOutput, CoreOutputView};
use crate::error::{CoreError, CoreErrorView};
use crate::message::{PendingToolCall, PendingToolCallView, TokenUsage};
use crate::prompt::{listing_summary, normalize_listing_summary};
use crate::session::SessionId;
use crate::text;
use crate::tools::{deduplicate_pending_tool_calls, deduplicated};

verus! {

broadcast use vstd::seq::group_seq_axioms;

/// Something that happens while the model is asked.
#[derive(Debug)]
pub enum ModelEvent {
    /// The request was accepted and the stream is open.
    Opened,
    /// A part of the reasoning.
    Reasoning(String),
    /// A part of the text.
    Text(String),
    /// A call of a tool.
    ToolCall(PendingToolCall),
    /// The answer is complete.
    Done(Option<TokenUsage>),
    /// The stream is over.
    Ended,
    /// The request or the stream failed.
    Failed(String),
    /// The session was stopped.
    Interrupted,
    /// There is nobody left who could stop the session.
    Closed,
}

/// The model of [`ModelEvent`].
#[verifier::ext_equal]
pub enum ModelEventView {
    Opened,
    Reasoning(Seq<char>),
    Text(Seq<char>),
    ToolCall(PendingToolCallView),
    Done(Option<TokenUsage>),
    Ended,
    Failed(Seq<char>),
    Interrupted,
    Closed,
}

impl DeepView for ModelEvent {
    type V = ModelEventView;

    open spec fn deep_view(&self) -> ModelEventView {
        match *self {
            ModelEvent::Opened => ModelEventView::Opened,
            ModelEvent::Reasoning(value) => ModelEventView::Reasoning(value.deep_view()),
            ModelEvent::Text(value) => ModelEventView::Text(value.deep_view()),
            ModelEvent::ToolCall(value) => ModelEventView::ToolCall(value.deep_view()),
            ModelEvent::Done(value) => ModelEventView::Done(value),
            ModelEvent::Ended => ModelEventView::Ended,
            ModelEvent::Failed(value) => ModelEventView::Failed(value.deep_view()),
            ModelEvent::Interrupted => ModelEventView::Interrupted,
            ModelEvent::Closed => ModelEventView::Closed,
        }
    }
}

/// What the model answered.
#[derive(Debug)]
pub enum ModelReply {
    Text { text: String, usage: Option<TokenUsage> },
    ToolCalls {
        text_before: Option<String>,
        calls: Vec<PendingToolCall>,
        usage: Option<TokenUsage>,
    },
}

/// The model of [`ModelReply`].
#[verifier::ext_equal]
pub enum ModelReplyView {
    Text { text: Seq<char>, usage: Option<TokenUsage> },
    ToolCalls {
        text_before: Option<Seq<char>>,
        calls: Seq<PendingToolCallView>,
        usage: Option<TokenUsage>,
    },
}

impl DeepView for ModelReply {
    type V = ModelReplyView;

    open spec fn deep_view(&self) -> ModelReplyView {
        match *self {
            ModelReply::Text { text, usage } => ModelReplyView::Text {
                text: text.deep_view(),
                usage,
            },
            ModelReply::ToolCalls { text_before, calls, usage } => ModelReplyView::ToolCalls {
                text_before: text_before.deep_view(),
                calls: calls.deep_view(),
                usage,
            },
        }
    }
}

/// How a request to the model ended.
#[derive(Debug)]
pub enum ModelOutcome {
    Answered(ModelReply),
    Interrupted,
    Failed(CoreError),
}

/// The model of [`ModelOutcome`].
#[verifier::ext_equal]
pub enum ModelOutcomeView {
    Answered(ModelReplyView),
    Interrupted,
    Failed(CoreErrorView),
}

impl DeepView for ModelOutcome {
    type V = ModelOutcomeView;

    open spec fn deep_view(&self) -> ModelOutcomeView {
        match *self {
            ModelOutcome::Answered(value) => ModelOutcomeView::Answered(value.deep_view()),
            ModelOutcome::Interrupted => ModelOutcomeView::Interrupted,
            ModelOutcome::Failed(value) => ModelOutcomeView::Failed(value.deep_view()),
        }
    }
}

/// A request to the model, as far as it has been answered.
#[derive(Debug)]
pub struct ModelCall {
    pub opened: bool,
    pub text: String,
    pub calls: Vec<PendingToolCall>,
}

/// The model of [`ModelCall`].
#[verifier::ext_equal]
pub struct ModelCallView {
    pub opened: bool,
    pub text: Seq<char>,
    pub calls: Seq<PendingToolCallView>,
}

impl DeepView for ModelCall {
    type V = ModelCallView;

    open spec fn deep_view(&self) -> ModelCallView {
        ModelCallView {
            opened: self.opened,
            text: self.text.deep_view(),
            calls: self.calls.deep_view(),
        }
    }
}

/// A request that was not answered yet.
pub open spec fn asked() -> ModelCallView {
    ModelCallView { opened: false, text: Seq::empty(), calls: Seq::empty() }
}

/// What the parts that came make up: text alone, or the tool calls, each once, with the
/// text in front of them.
pub open spec fn reply_of(call: ModelCallView, usage: Option<TokenUsage>) -> ModelReplyView {
    let calls = deduplicated(call.calls);
    if calls.len() == 0 {
        ModelReplyView::Text { text: call.text, usage }
    } else {
        ModelReplyView::ToolCalls {
            text_before: if call.text.len() == 0 {
                None
            } else {
                Some(call.text)
            },
            calls,
            usage,
        }
    }
}

/// What the request has gathered after an event.
pub open spec fn gathered(call: ModelCallView, event: ModelEventView) -> ModelCallView {
    match event {
        ModelEventView::Opened => ModelCallView { opened: true, ..call },
        ModelEventView::Text(part) => ModelCallView { text: call.text + part, ..call },
        ModelEventView::ToolCall(tool_call) => ModelCallView {
            calls: call.calls.push(tool_call),
            ..call
        },
        _ => call,
    }
}

/// What is shown of an event at once.
pub open spec fn shown(session_id: SessionId, event: ModelEventView) -> Seq<CoreOutputView> {
    match event {
        ModelEventView::Reasoning(part) => seq![
            CoreOutputView::ReasoningDelta { session_id, delta: part },
        ],
        ModelEventView::Text(part) => seq![CoreOutputView::StreamDelta { session_id, delta: part }],
        _ => Seq::empty(),
    }
}

/// How the request ends with an event, if it does.
pub open spec fn ending(call: ModelCallView, event: ModelEventView) -> Option<ModelOutcomeView> {
    match event {
        ModelEventView::Done(usage) => Some(ModelOutcomeView::Answered(reply_of(call, usage))),
        ModelEventView::Ended => Some(ModelOutcomeView::Answered(reply_of(call, None))),
        ModelEventView::Failed(message) => Some(
            ModelOutcomeView::Failed(CoreErrorView::LlmError { message }),
        ),
        ModelEventView::Interrupted => Some(ModelOutcomeView::Interrupted),
        ModelEventView::Closed => Some(
            ModelOutcomeView::Failed(
                CoreErrorView::Internal {
                    message: if call.opened {
                        "input channel closed while streaming LLM response"@
                    } else {
                        "input channel closed while awaiting LLM response"@
                    },
                },
            ),
        ),
        _ => None,
    }
}

/// What a request has gathered after events.
pub open spec fn gathered_all(events: Seq<ModelEventView>) -> ModelCallView
    decreases events.len(),
{
    if events.len() == 0 {
        asked()
    } else {
        gathered(gathered_all(events.drop_last()), events.last())
    }
}

/// All that is shown of events.
pub open spec fn shown_all(session_id: SessionId, events: Seq<ModelEventView>) -> Seq<
    CoreOutputView,
>
    decreases events.len(),
{
    if events.len() == 0 {
        Seq::empty()
    } else {
        shown_all(session_id, events.drop_last()) + shown(session_id, events.last())
    }
}

/// The parts of the text that was shown, put together.
pub open spec fn streamed_text(outputs: Seq<CoreOutputView>) -> Seq<char>
    decreases outputs.len(),
{
    if outputs.len() == 0 {
        Seq::empty()
    } else {
        match outputs.last() {
            CoreOutputView::StreamDelta { delta, .. } => streamed_text(outputs.drop_last()) + delta,
            _ => streamed_text(outputs.drop_last()),
        }
    }
}

/// The text of the answer is the text that was shown while it came.
pub proof fn law_text_was_streamed(session_id: SessionId, events: Seq<ModelEventView>)
    ensures
        gathered_all(events).text == streamed_text(shown_all(session_id, events)),
    decreases events.len(),
{
    if events.len() > 0 {
        let front = events.drop_last();
        law_text_was_streamed(session_id, front);
        let before = shown_all(session_id, front);
        match events.last() {
            ModelEventView::Text(part) => {
                let output = CoreOutputView::StreamDelta { session_id, delta: part };
                assert(before + seq![output] =~= before.push(output));
                assert(before.push(output).drop_last() =~= before);
            },
            ModelEventView::Reasoning(part) => {
                let output = CoreOutputView::ReasoningDelta { session_id, delta: part };
                assert(before + seq![output] =~= before.push(output));
                assert(before.push(output).drop_last() =~= before);
            },
            _ => {
                assert(before + Seq::<CoreOutputView>::empty() =~= before);
            },
        }
    }
}

/// An answer with tool calls has at least one, and none twice; an answer without has the
/// whole text.
pub proof fn law_reply(call: ModelCallView, usage: Option<TokenUsage>)
    ensures
        match reply_of(call, usage) {
            ModelReplyView::Text { text, .. } => call.calls.len() == 0 && text == call.text,
            ModelReplyView::ToolCalls { text_before, calls, .. } => {
                &&& calls.len() > 0
                &&& forall|i: int, j: int|
                    0 <= i < j < calls.len() ==> (#[trigger] calls[i]).tool_use_id != (
                    #[trigger] calls[j]).tool_use_id
                &&& text_before matches Some(text) ==> text.len() > 0
            },
        },
{
    crate::tools::law_deduplicated(call.calls);
    if call.calls.len() > 0 {
        let id = call.calls[0].tool_use_id;
        assert(crate::tools::has_id(call.calls, id));
        assert(crate::tools::has_id(deduplicated(call.calls), id));
    }
}

impl ModelCall {
    /// A request that was not answered yet.
    pub fn ask() -> (r: ModelCall)
        ensures
            r.deep_view() == asked(),
    {
        let r = ModelCall { opened: false, text: String::new(), calls: Vec::new() };
        assert(r.deep_view() =~= asked());
        r
    }

    /// What the parts that came make up.
    fn reply(&mut self, usage: Option<TokenUsage>) -> (r: ModelReply)
        ensures
            r.deep_view() == reply_of(old(self).deep_view(), usage),
            final(self).deep_view() == old(self).deep_view(),
    {
        let copies = self.calls.clone();
        assert(copies.deep_view() =~= self.calls.deep_view());
        let calls = deduplicate_pending_tool_calls(copies);
        let text = self.text.clone();
        if calls.len() == 0 {
            ModelReply::Text { text, usage }
        } else {
            let text_before = if text.as_str().is_empty() {
                None
            } else {
                Some(text)
            };
            ModelReply::ToolCalls { text_before, calls, usage }
        }
    }

    /// Takes an event. Returns what is shown of it, and how the request ends, if it does.
    pub fn take(&mut self, session_id: SessionId, event: ModelEvent) -> (r: (
        Vec<CoreOutput>,
        Option<ModelOutcome>,
    ))
        ensures
            final(self).deep_view() == gathered(old(self).deep_view(), event.deep_view()),
            r.0.deep_view() == shown(session_id, event.deep_view()),
            r.1.deep_view() == ending(old(self).deep_view(), event.deep_view()),
    {
        let mut outputs: Vec<CoreOutput> = Vec::new();
        assert(outputs.deep_view() =~= Seq::empty());
        let outcome = match event {
            ModelEvent::Opened => {
                self.opened = true;
                None
            },
            ModelEvent::Reasoning(part) => {
                outputs.push(CoreOutput::ReasoningDelta { session_id, delta: part });
                assert(outputs.deep_view() =~= shown(session_id, event.deep_view()));
                None
            },
            ModelEvent::Text(part) => {
                self.text.append(part.as_str());
                outputs.push(CoreOutput::StreamDelta { session_id, delta: part });
                assert(outputs.deep_view() =~= shown(session_id, event.deep_view()));
                None
            },
            ModelEvent::ToolCall(tool_call) => {
                let ghost before = self.calls.deep_view();
                self.calls.push(tool_call);
                assert(self.calls.deep_view() =~= before.push(tool_call.deep_view()));
                None
            },
            ModelEvent::Done(usage) => Some(ModelOutcome::Answered(self.reply(usage))),
            ModelEvent::Ended => Some(ModelOutcome::Answered(self.reply(None))),
            ModelEvent::Failed(message) => Some(
                ModelOutcome::Failed(CoreError::LlmError { message }),
            ),
            ModelEvent::Interrupted => Some(ModelOutcome::Interrupted),
            ModelEvent::Closed => {
                let message = if self.opened {
                    "input channel closed while streaming LLM response".to_owned()
                } else {
                    "input channel closed while awaiting LLM response".to_owned()
                };
                Some(ModelOutcome::Failed(CoreError::Internal { message }))
            },
        };
        (outputs, outcome)
    }
}

/// The summary that an answer gives. Tool calls are no summary.
pub open spec fn summary_of(reply: ModelReplyView) -> Option<Seq<char>> {
    match reply {
        ModelReplyView::Text { text, .. } => Some(text::trimmed(text)),
        ModelReplyView::ToolCalls { .. } => None,
    }
}

/// The summary that a request for one gives.
pub fn summarize_history(answer: Result<ModelReply, CoreError>) -> (r: Result<String, CoreError>)
    ensures
        match (answer, r) {
            (Ok(reply), Ok(summary)) => summary_of(reply.deep_view()) == Some(summary@),
            (Ok(reply), Err(error)) => summary_of(reply.deep_view()) is None && error.deep_view()
                == (CoreErrorView::LlmError {
                message: "summarizer unexpectedly requested tool calls"@,
            }),
            (Err(failure), Err(error)) => error.deep_view() == failure.deep_view(),
            (Err(_), Ok(_)) => false,
        },
{
    match answer {
        Ok(ModelReply::Text { text, .. }) => Ok(text::trim(text.as_str())),
        Ok(ModelReply::ToolCalls { .. }) => Err(
            CoreError::LlmError {
                message: "summarizer unexpectedly requested tool calls".to_owned(),
            },
        ),
        Err(error) => Err(error),
    }
}

/// The sentence about a session that a request for one gives, if the answer holds one.
pub fn generate_session_listing_summary(answer: Result<ModelReply, CoreError>) -> (r: Result<
    Option<String>,
    CoreError,
>)
    ensures
        match (answer, r) {
            (Ok(reply), Ok(summary)) => reply.deep_view() matches ModelReplyView::Text { text, .. }
                && summary.deep_view() == listing_summary(text),
            (Ok(reply), Err(error)) => reply.deep_view() is ToolCalls && error.deep_view() == (
            CoreErrorView::LlmError {
                message: "session listing summarizer unexpectedly requested tool calls"@,
            }),
            (Err(failure), Err(error)) => error.deep_view() == failure.deep_view(),
            (Err(_), Ok(_)) => false,
        },
{
    match answer {
        Ok(ModelReply::Text { text, .. }) => Ok(normalize_listing_summary(text.as_str())),
        Ok(ModelReply::ToolCalls { .. }) => Err(
            CoreError::LlmError {
                message: "session listing summarizer unexpectedly requested tool calls".to_owned(),
            },
        ),
        Err(error) => Err(error),
    }
}

} // verus!
