//! What gathering an answer of the model and running tools is for.

use vstd::prelude::*;

use crate::channel::{outcome_text, CoreOutputView, ToolOutcomeView};
use crate::error::CoreErrorView;
use crate::message::{PendingToolCallView, TokenUsage};
use crate::model_call::{
    ending, gathered_all, shown, summary_of, ModelCallView, ModelEventView, ModelOutcomeView,
    ModelReplyView,
};
use crate::permissions::{risk, RiskLevel};
use crate::session::SessionId;
use crate::text;
use crate::tools::{
    collected, deduplicated, eligible, registered, returned_outcome, CompletedToolCallView,
    ToolInfoView, ToolReturnView,
};

verus! {

broadcast use vstd::seq::group_seq_axioms;

/// Text that comes is put behind the text that came before, and a call behind the calls that
/// came before. Thoughts are not part of the answer.
pub proof fn law_answer_is_gathered(
    events: Seq<ModelEventView>,
    part: Seq<char>,
    call: PendingToolCallView,
)
    ensures
        ({
            let before = gathered_all(events);
            let text = gathered_all(events.push(ModelEventView::Text(part)));
            let called = gathered_all(events.push(ModelEventView::ToolCall(call)));
            let thought = gathered_all(events.push(ModelEventView::Reasoning(part)));
            &&& text.text == before.text + part && text.calls == before.calls
            &&& called.text == before.text && called.calls == before.calls.push(call)
            &&& thought == before
        }),
        gathered_all(Seq::empty()).text.len() == 0,
        gathered_all(Seq::empty()).calls.len() == 0,
{
    assert(events.push(ModelEventView::Text(part)).drop_last() =~= events);
    assert(events.push(ModelEventView::ToolCall(call)).drop_last() =~= events);
    assert(events.push(ModelEventView::Reasoning(part)).drop_last() =~= events);
}

/// What comes is shown at once as it came: text as text and thoughts as thoughts. Calls are
/// not shown before the answer is complete.
pub proof fn law_answer_is_shown(session_id: SessionId, part: Seq<char>, call: PendingToolCallView)
    ensures
        shown(session_id, ModelEventView::Text(part)) == seq![
            CoreOutputView::StreamDelta { session_id, delta: part },
        ],
        shown(session_id, ModelEventView::Reasoning(part)) == seq![
            CoreOutputView::ReasoningDelta { session_id, delta: part },
        ],
        shown(session_id, ModelEventView::ToolCall(call)).len() == 0,
{
}

/// The answer is what was gathered: the text alone where there was no call, and otherwise the
/// calls, as they came where no identifier came twice, with the text if there was any. The
/// usage is the one that was reported with it.
pub proof fn law_answer_is_what_came(call: ModelCallView, usage: Option<TokenUsage>)
    ensures
        call.calls.len() == 0 ==> ending(call, ModelEventView::Done(usage)) == Some(
            ModelOutcomeView::Answered(ModelReplyView::Text { text: call.text, usage }),
        ),
        call.calls.len() == 0 ==> ending(call, ModelEventView::Ended) == Some(
            ModelOutcomeView::Answered(ModelReplyView::Text { text: call.text, usage: None }),
        ),
        call.calls.len() > 0 && (forall|i: int, j: int|
            0 <= i < j < call.calls.len() ==> (#[trigger] call.calls[i]).tool_use_id != (
            #[trigger] call.calls[j]).tool_use_id) ==> ending(call, ModelEventView::Done(usage))
            == Some(
            ModelOutcomeView::Answered(
                ModelReplyView::ToolCalls {
                    text_before: if call.text.len() > 0 {
                        Some(call.text)
                    } else {
                        None
                    },
                    calls: call.calls,
                    usage,
                },
            ),
        ),
{
    crate::tools::law_deduplicated(call.calls);
}

/// Of calls with one identifier the first stays.
pub proof fn law_first_call_stays(calls: Seq<PendingToolCallView>, call: PendingToolCallView)
    ensures
        (exists|i: int|
            0 <= i < calls.len() && (#[trigger] calls[i]).tool_use_id == call.tool_use_id)
            ==> deduplicated(calls.push(call)) == deduplicated(calls),
        (forall|i: int|
            0 <= i < calls.len() ==> (#[trigger] calls[i]).tool_use_id != call.tool_use_id)
            ==> deduplicated(calls.push(call)) == deduplicated(calls).push(call),
{
    assert(calls.push(call).drop_last() =~= calls);
    assert(calls.push(call).last() == call);
    if exists|i: int|
        0 <= i < calls.len() && (#[trigger] calls[i]).tool_use_id == call.tool_use_id {
        assert(crate::tools::has_id(calls, call.tool_use_id));
    }
}

/// A request that fails ends with the error, one that is stopped ends as stopped, and one that
/// was cut off ends as a failure. Everything else leaves it open.
pub proof fn law_end_of_a_request(
    call: ModelCallView,
    message: Seq<char>,
    part: Seq<char>,
    tool_call: PendingToolCallView,
)
    ensures
        ending(call, ModelEventView::Failed(message)) == Some(
            ModelOutcomeView::Failed(CoreErrorView::LlmError { message }),
        ),
        ending(call, ModelEventView::Interrupted) == Some(ModelOutcomeView::Interrupted),
        (ending(call, ModelEventView::Closed) matches Some(outcome) && (
        outcome matches ModelOutcomeView::Failed(CoreErrorView::Internal { .. }))),
        ending(call, ModelEventView::Text(part)) is None,
        ending(call, ModelEventView::Reasoning(part)) is None,
        ending(call, ModelEventView::ToolCall(tool_call)) is None,
        ending(call, ModelEventView::Opened) is None,
{
}

/// A summary is the text of the answer without the white space around it. Calls are none.
pub proof fn law_summary_is_the_answer(
    said: Seq<char>,
    usage: Option<TokenUsage>,
    text_before: Option<Seq<char>>,
    calls: Seq<PendingToolCallView>,
)
    ensures
        summary_of(ModelReplyView::Text { text: said, usage }) == Some(text::trimmed(said)),
        summary_of(ModelReplyView::ToolCalls { text_before, calls, usage }) is None,
{
}

/// What a tool gave is the outcome of its call: an output that is no error is a success with
/// that output, and all else but a cancellation is an error that says what the tool said.
pub proof fn law_outcome_of_a_tool(content: Seq<char>)
    ensures
        returned_outcome(ToolReturnView::Output { content, is_error: false }) == (
        ToolOutcomeView::Success { output: content }),
        returned_outcome(ToolReturnView::Output { content, is_error: true }) == (
        ToolOutcomeView::Error { message: content }),
        returned_outcome(ToolReturnView::Failed { error: content }) == (ToolOutcomeView::Error {
            message: content,
        }),
        returned_outcome(ToolReturnView::Cancelled) == ToolOutcomeView::Cancelled,
        (returned_outcome(ToolReturnView::Panicked { error: content }) matches
            ToolOutcomeView::Error { message } && crate::laws::parts::ends_with(message, content)),
{
    let told = "tool task panicked: "@ + content;
    assert(told.skip(told.len() - content.len()) =~= content);
}

/// The tool of a name is the one that was registered last under it.
pub proof fn law_last_registered(registry: Seq<ToolInfoView>, tool: ToolInfoView, name: Seq<char>)
    ensures
        registered(Seq::empty(), name) is None,
        tool.name == name ==> registered(registry.push(tool), name) == Some(tool),
        tool.name != name ==> registered(registry.push(tool), name) == registered(registry, name),
{
    assert(registry.push(tool).drop_last() =~= registry);
    assert(registry.push(tool).last() == tool);
}

/// Only calls that look for files or read one may run beside others, and only where their tool
/// only reads, may be repeated and does not ask the user.
pub proof fn law_what_may_run_beside_others(
    registry: Seq<ToolInfoView>,
    call: PendingToolCallView,
    tool: ToolInfoView,
)
    ensures
        call.tool_name != "find"@ && call.tool_name != "read_file"@ ==> !eligible(registry, call),
        registered(registry, call.tool_name) is None ==> !eligible(registry, call),
        (call.tool_name == "find"@ || call.tool_name == "read_file"@) && tool.name == call.tool_name
            ==> (eligible(registry.push(tool), call) <==> tool.read_only && tool.idempotent
            && !tool.interactive),
{
    law_last_registered(registry, tool, call.tool_name);
}

/// The results of calls that ran at once are all of those that came, in the order of the calls.
pub proof fn law_results_are_collected(
    results: Seq<Option<CompletedToolCallView>>,
    result: CompletedToolCallView,
)
    ensures
        collected(Seq::empty()).len() == 0,
        collected(results.push(Some(result))) == collected(results).push(result),
        collected(results.push(None)) == collected(results),
{
    assert(results.push(Some(result)).drop_last() =~= results);
    assert(results.push(None).drop_last() =~= results);
}

/// What an outcome says: its output, or its error, and that it is an error exactly where it is
/// no success.
pub proof fn law_outcomes_are_told(outcome: ToolOutcomeView)
    ensures
        outcome_text(outcome).1 <==> !(outcome is Success),
        outcome matches ToolOutcomeView::Success { output } ==> outcome_text(outcome).0 == output,
        outcome matches ToolOutcomeView::Error { message } ==> outcome_text(outcome).0 == message,
        outcome is Cancelled ==> outcome_text(outcome).0 == "Tool execution was cancelled"@,
{
}

/// The shell can do a lot of harm, writing and editing some, and everything else little.
pub proof fn law_harm_that_tools_can_do(tool_name: Seq<char>)
    ensures
        risk(tool_name) == RiskLevel::High <==> tool_name == "Bash"@,
        risk(tool_name) == RiskLevel::Medium <==> tool_name == "Write"@ || tool_name == "Edit"@,
{
    reveal_strlit("Bash");
    reveal_strlit("Write");
    reveal_strlit("Edit");
    assert("Bash"@[0] == 'B' && "Write"@[0] == 'W' && "Edit"@[0] == 'E');
}

} // verus!
