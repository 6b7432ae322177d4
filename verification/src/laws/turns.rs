//! What a turn is for: the model is told everything that happened, and the user is told what
//! the model said.

use vstd::prelude::*;

use crate::channel::{CoreOutputView, ToolOutcomeView, TurnStatus};
use crate::context::SessionView;
use crate::effect::EffectView;
use crate::error::CoreErrorView;
use crate::message::{
    MessageContentView, MessageView, PendingToolCallView, Role, TokenUsage,
};
use crate::model_call::{ModelOutcomeView, ModelReplyView};
use crate::plan::law_normalized;
use crate::session::SessionState;
use crate::status_report::{SessionStatusReportView, StatusReportStage};
use crate::turn::{
    awaited, consistent, turn_move, Host, TurnActionView, TurnEventView, TurnOutcomeView,
    TurnPhase, TurnView,
};

verus! {

broadcast use vstd::seq::group_seq_axioms;

/// The model is told of each tool how it ended: the message that goes into the history answers
/// the call, holds what was prepared, and is marked as an error exactly where the tool did not
/// succeed.
pub proof fn law_model_is_told_how_a_tool_ended(
    turn: TurnView,
    session: SessionView,
    output: Seq<char>,
    duration_us: u64,
)
    requires
        consistent(turn),
        awaited(turn, session, TurnEventView::Prepared(output)),
    ensures
        ({
            let ended = turn.completed[turn.recorded as int];
            let history = turn_move(
                turn,
                session,
                TurnEventView::Prepared(output),
                duration_us,
            ).session.history;
            &&& history.len() == session.history.len() + 1
            &&& history.drop_last() == session.history
            &&& history.last().role == Role::Tool
            &&& history.last().content matches MessageContentView::ToolResult {
                tool_use_id,
                output: told,
                is_error,
            }
            &&& tool_use_id == ended.tool_use_id
            &&& told == output
            &&& is_error <==> !(ended.result is Success)
        }),
{
    let next = turn_move(turn, session, TurnEventView::Prepared(output), duration_us);
    assert(next.session.history.drop_last() =~= session.history);
}

/// What is prepared for the history, and shown to the user, is what the tool that comes next
/// gave: its output or its error, marked as an error exactly where it did not succeed.
pub proof fn law_result_is_that_of_the_tool(
    turn: TurnView,
    session: SessionView,
    event: TurnEventView,
    duration_us: u64,
)
    requires
        consistent(turn),
        awaited(turn, session, event),
    ensures
        ({
            let next = turn_move(turn, session, event, duration_us);
            next.action matches TurnActionView::PrepareResult {
                tool_use_id,
                tool_name,
                output,
                is_error,
            } ==> {
                let ended = next.turn.completed[next.turn.recorded as int];
                &&& next.turn.phase == TurnPhase::Recording
                &&& next.turn.recorded < next.turn.completed.len()
                &&& tool_use_id == ended.tool_use_id
                &&& tool_name == ended.tool_name
                &&& is_error <==> !(ended.result is Success)
                &&& ended.result matches ToolOutcomeView::Success { output: given } ==> output
                    == given
                &&& ended.result matches ToolOutcomeView::Error { message } ==> output == message
                &&& next.effects.len() > 0
                &&& next.effects.last() == EffectView::Output(
                    CoreOutputView::ToolResult {
                        session_id: session.id,
                        tool_use_id,
                        tool_name,
                        content: output,
                        is_error,
                        duration_us: ended.duration_us,
                    },
                )
            }
        }),
{
}

/// A tool that ends is noted with its call and with how it ended, behind those that ended
/// before. Nothing that ended before is changed.
pub proof fn law_ended_tool_is_noted(
    turn: TurnView,
    session: SessionView,
    outcome: ToolOutcomeView,
    tool_us: u64,
    duration_us: u64,
)
    requires
        consistent(turn),
        awaited(
            turn,
            session,
            TurnEventView::ToolFinished { outcome, duration_us: tool_us },
        ),
    ensures
        ({
            let next = turn_move(
                turn,
                session,
                TurnEventView::ToolFinished { outcome, duration_us: tool_us },
                duration_us,
            );
            let call = turn.calls[turn.next as int];
            &&& next.turn.completed.len() == turn.completed.len() + 1
            &&& next.turn.completed.drop_last() == turn.completed
            &&& next.turn.completed.last().result == outcome
            &&& next.turn.completed.last().duration_us == tool_us
            &&& next.turn.completed.last().tool_use_id == call.tool_use_id
            &&& next.turn.completed.last().tool_name == call.tool_name
            &&& next.turn.completed.last().arguments == call.arguments
            &&& next.turn.calls == turn.calls
            &&& next.turn.next == turn.next + 1
        }),
{
    let next = turn_move(
        turn,
        session,
        TurnEventView::ToolFinished { outcome, duration_us: tool_us },
        duration_us,
    );
    assert(next.turn.completed.drop_last() =~= turn.completed);
}

/// A tool is run with a call of the model that was not run yet, and the user is told of it
/// just before.
pub proof fn law_tool_runs_as_it_was_called(
    turn: TurnView,
    session: SessionView,
    event: TurnEventView,
    duration_us: u64,
)
    requires
        consistent(turn),
        awaited(turn, session, event),
    ensures
        ({
            let next = turn_move(turn, session, event, duration_us);
            &&& next.action matches TurnActionView::RunTool(call) ==> {
                &&& next.turn.next < next.turn.calls.len()
                &&& next.turn.next == next.turn.completed.len()
                &&& call == next.turn.calls[next.turn.next as int]
                &&& next.effects.len() > 0
                &&& next.effects.last() == EffectView::Output(
                    CoreOutputView::ToolRequest {
                        session_id: session.id,
                        tool_use_id: call.tool_use_id,
                        tool_name: call.tool_name,
                        arguments: call.arguments,
                    },
                )
            }
            &&& next.action matches TurnActionView::RunBatch(calls) ==> {
                &&& calls == next.turn.calls
                &&& next.effects.len() >= calls.len()
                &&& forall|i: int|
                    0 <= i < calls.len() ==> #[trigger] next.effects[next.effects.len()
                        - calls.len() + i] == EffectView::Output(
                        CoreOutputView::ToolRequest {
                            session_id: session.id,
                            tool_use_id: calls[i].tool_use_id,
                            tool_name: calls[i].tool_name,
                            arguments: calls[i].arguments,
                        },
                    )
            }
        }),
{
}

/// What the model called goes into the history as it was called, with what was said before,
/// and the calls that are carried out are those calls in that order.
pub proof fn law_calls_go_into_the_history(
    turn: TurnView,
    session: SessionView,
    text_before: Option<Seq<char>>,
    calls: Seq<PendingToolCallView>,
    usage: Option<TokenUsage>,
    duration_us: u64,
)
    requires
        consistent(turn),
        calls.len() <= usize::MAX,
        awaited(
            turn,
            session,
            TurnEventView::Model(
                ModelOutcomeView::Answered(ModelReplyView::ToolCalls { text_before, calls, usage }),
            ),
        ),
    ensures
        ({
            let next = turn_move(
                turn,
                session,
                TurnEventView::Model(
                    ModelOutcomeView::Answered(
                        ModelReplyView::ToolCalls { text_before, calls, usage },
                    ),
                ),
                duration_us,
            );
            let history = next.session.history;
            &&& history.len() == session.history.len() + 1
            &&& history.drop_last() == session.history
            &&& history.last().role == Role::Assistant
            &&& history.last().content matches MessageContentView::ToolUse { text, tool_calls }
            &&& text == text_before
            &&& tool_calls.len() == calls.len()
            &&& forall|i: int|
                0 <= i < calls.len() ==> {
                    &&& (#[trigger] tool_calls[i]).tool_use_id == calls[i].tool_use_id
                    &&& tool_calls[i].tool_name == calls[i].tool_name
                    &&& tool_calls[i].arguments == calls[i].arguments
                }
            &&& next.turn.calls.len() == calls.len()
            &&& forall|i: int|
                0 <= i < calls.len() ==> {
                    &&& (#[trigger] next.turn.calls[i]).tool_use_id == calls[i].tool_use_id
                    &&& next.turn.calls[i].tool_name == calls[i].tool_name
                    &&& calls[i].tool_name != "plan"@ ==> next.turn.calls[i] == calls[i]
                }
            &&& next.turn.completed.len() == 0
            &&& next.turn.recorded == 0
            &&& text_before matches Some(said) ==> next.effects.len() > 0 && next.effects[0]
                == EffectView::Output(
                CoreOutputView::TextComplete { session_id: session.id, full_text: said },
            )
            &&& session.current_turn_tool_rounds < u32::MAX
                ==> next.session.current_turn_tool_rounds == session.current_turn_tool_rounds + 1
        }),
{
    let next = turn_move(
        turn,
        session,
        TurnEventView::Model(
            ModelOutcomeView::Answered(ModelReplyView::ToolCalls { text_before, calls, usage }),
        ),
        duration_us,
    );
    assert(next.session.history.drop_last() =~= session.history);
    assert forall|i: int| 0 <= i < calls.len() implies {
        &&& (#[trigger] next.turn.calls[i]).tool_use_id == calls[i].tool_use_id
        &&& next.turn.calls[i].tool_name == calls[i].tool_name
        &&& calls[i].tool_name != "plan"@ ==> next.turn.calls[i] == calls[i]
    } by {
        law_normalized(next.session.history, calls[i], Seq::empty());
    }
}

/// What the model answers goes into the history, and is the answer of the turn.
pub proof fn law_answer_goes_into_the_history(
    turn: TurnView,
    session: SessionView,
    text: Seq<char>,
    usage: Option<TokenUsage>,
    duration_us: u64,
)
    requires
        consistent(turn),
        awaited(
            turn,
            session,
            TurnEventView::Model(
                ModelOutcomeView::Answered(ModelReplyView::Text { text, usage }),
            ),
        ),
    ensures
        ({
            let next = turn_move(
                turn,
                session,
                TurnEventView::Model(
                    ModelOutcomeView::Answered(ModelReplyView::Text { text, usage }),
                ),
                duration_us,
            );
            let history = next.session.history;
            &&& history.len() == session.history.len() + 1
            &&& history.drop_last() == session.history
            &&& history.last().role == Role::Assistant
            &&& history.last().content == MessageContentView::Text(text)
            &&& next.turn.text == text
            &&& next.action is Finished || next.action == TurnActionView::GenerateReport {
                stage: StatusReportStage::Completed,
                calls: 0,
            }
        }),
{
    let next = turn_move(
        turn,
        session,
        TurnEventView::Model(ModelOutcomeView::Answered(ModelReplyView::Text { text, usage })),
        duration_us,
    );
    assert(next.session.history.drop_last() =~= session.history);
}

/// The end of a turn that succeeds: the user gets the whole answer, is told what the turn has
/// used and how long it took, and the session is saved and its memory looked after.
pub proof fn law_success_is_told(
    turn: TurnView,
    session: SessionView,
    event: TurnEventView,
    duration_us: u64,
)
    requires
        consistent(turn),
        awaited(turn, session, event),
    ensures
        ({
            let next = turn_move(turn, session, event, duration_us);
            next.action matches TurnActionView::Finished(TurnOutcomeView::Completed(answer)) ==> {
                &&& answer == Some(next.turn.text)
                &&& next.session.state == SessionState::Idle
                &&& next.effects.contains(
                    EffectView::Output(
                        CoreOutputView::TextComplete {
                            session_id: session.id,
                            full_text: next.turn.text,
                        },
                    ),
                )
                &&& next.effects.contains(
                    EffectView::Output(
                        CoreOutputView::TurnComplete {
                            session_id: session.id,
                            duration_us,
                            status: TurnStatus::Success,
                            usage: next.turn.usage,
                            cache_usage: next.turn.cache_usage,
                        },
                    ),
                )
                &&& next.effects.contains(
                    EffectView::Output(
                        CoreOutputView::SessionStateChanged {
                            session_id: session.id,
                            state: SessionState::Idle,
                        },
                    ),
                )
                &&& next.effects.contains(EffectView::ConsiderMemoryRefresh)
                &&& next.effects.last() == EffectView::Checkpoint
            }
        }),
{
    let next = turn_move(turn, session, event, duration_us);
    if next.action is Finished {
        let n = next.effects.len();
        if next.action->Finished_0 is Completed {
            assert(next.effects[n - 5] == EffectView::Output(
                CoreOutputView::TextComplete { session_id: session.id, full_text: next.turn.text },
            ));
            assert(next.effects[n - 4]->Output_0 is TurnComplete);
            assert(next.effects[n - 3]->Output_0 is SessionStateChanged);
            assert(next.effects[n - 2] == EffectView::ConsiderMemoryRefresh);
        }
    }
}

/// The end of a turn that fails: the user is told the error itself, and the session is idle
/// again.
pub proof fn law_failure_is_told(
    turn: TurnView,
    session: SessionView,
    event: TurnEventView,
    error: CoreErrorView,
    duration_us: u64,
)
    requires
        consistent(turn),
        awaited(turn, session, event),
        event == TurnEventView::ArchivingFailed(error) || event
            == TurnEventView::CompactionFailed(error) || event == TurnEventView::BuildingFailed(
            error,
        ) || event == TurnEventView::PreparingFailed(error) || event == TurnEventView::Model(
            ModelOutcomeView::Failed(error),
        ),
    ensures
        ({
            let next = turn_move(turn, session, event, duration_us);
            &&& next.action is Finished
            &&& next.action->Finished_0 is Failed
            &&& next.session.state == SessionState::Idle
            &&& next.session.history == session.history
            &&& next.effects.contains(
                EffectView::Output(
                    CoreOutputView::SessionError { session_id: session.id, error },
                ),
            )
            &&& next.effects.contains(
                EffectView::Output(
                    CoreOutputView::SessionStateChanged {
                        session_id: session.id,
                        state: SessionState::Idle,
                    },
                ),
            )
            &&& next.effects.last() == EffectView::Output(
                CoreOutputView::TurnComplete {
                    session_id: session.id,
                    duration_us,
                    status: TurnStatus::Failed,
                    usage: turn.usage,
                    cache_usage: turn.cache_usage,
                },
            )
        }),
{
    let next = turn_move(turn, session, event, duration_us);
    let n = next.effects.len();
    assert(next.effects[n - 3]->Output_0 is SessionStateChanged);
    assert(next.effects[n - 2]->Output_0 is SessionError);
}

/// A turn that is cancelled tells so with what it has used, and takes nothing out of the
/// history.
pub proof fn law_cancellation_is_told(
    turn: TurnView,
    session: SessionView,
    event: TurnEventView,
    duration_us: u64,
)
    requires
        consistent(turn),
        awaited(turn, session, event),
    ensures
        ({
            let next = turn_move(turn, session, event, duration_us);
            next.action == TurnActionView::Finished(TurnOutcomeView::Cancelled) ==> {
                &&& next.effects.contains(
                    EffectView::Output(
                        CoreOutputView::TurnComplete {
                            session_id: session.id,
                            duration_us,
                            status: TurnStatus::Cancelled,
                            usage: next.turn.usage,
                            cache_usage: next.turn.cache_usage,
                        },
                    ),
                )
                &&& session.history.len() <= next.session.history.len()
            }
        }),
{
    let next = turn_move(turn, session, event, duration_us);
    if next.action == TurnActionView::Finished(TurnOutcomeView::Cancelled) {
        let n = next.effects.len();
        if n >= 3 && next.effects[n - 3] is Output && next.effects[n - 3]->Output_0
            is TurnComplete {
        } else if n >= 2 && next.effects[n - 2] is Output && next.effects[n - 2]->Output_0
            is TurnComplete {
        } else {
            assert(next.effects[n - 1]->Output_0 is TurnComplete);
        }
    }
}

/// What an answer has used is added to what the turn has used, and the session notes how long
/// the prompt was.
pub proof fn law_usage_adds_up(
    turn: TurnView,
    session: SessionView,
    reply: ModelReplyView,
    duration_us: u64,
)
    requires
        consistent(turn),
        awaited(turn, session, TurnEventView::Model(ModelOutcomeView::Answered(reply))),
    ensures
        ({
            let next = turn_move(
                turn,
                session,
                TurnEventView::Model(ModelOutcomeView::Answered(reply)),
                duration_us,
            );
            let used = match reply {
                ModelReplyView::Text { usage, .. } => usage,
                ModelReplyView::ToolCalls { usage, .. } => usage,
            };
            let hit: int = match turn.cache_usage {
                Some(total) => total.estimated_hit_tokens as int,
                None => 0,
            };
            let miss: int = match turn.cache_usage {
                Some(total) => total.estimated_miss_tokens as int,
                None => 0,
            };
            &&& input_total(next.turn.usage) == input_total(turn.usage) + input_total(used)
            &&& output_total(next.turn.usage) == output_total(turn.usage) + output_total(used)
            &&& next.turn.usage is Some <==> turn.usage is Some || used is Some
            &&& next.turn.cache_usage matches Some(total) && {
                &&& total.estimated_hit_tokens == hit + turn.prompt_usage.estimated_hit_tokens
                &&& total.estimated_miss_tokens == miss + turn.prompt_usage.estimated_miss_tokens
            }
            &&& used matches Some(used) ==> next.session.last_input_tokens == Some(
                used.input_tokens,
            )
            &&& used is None ==> next.session.last_input_tokens is None
            &&& next.session.last_prompt_cache_tokens == Some(turn.prompt_tokens)
        }),
{
}

/// The tokens of prompts.
pub open spec fn input_total(usage: Option<TokenUsage>) -> int {
    match usage {
        Some(usage) => usage.input_tokens as int,
        None => 0,
    }
}

/// The tokens of answers.
pub open spec fn output_total(usage: Option<TokenUsage>) -> int {
    match usage {
        Some(usage) => usage.output_tokens as int,
        None => 0,
    }
}

/// The model is asked with the messages that were built, and told of the tools of the session.
/// Every token of the prompt is counted once, as one that the cache has or as one that it has
/// not.
pub proof fn law_model_is_asked_with_what_was_built(
    turn: TurnView,
    session: SessionView,
    messages: Seq<MessageView>,
    duration_us: u64,
)
    requires
        consistent(turn),
        awaited(turn, session, TurnEventView::Built(messages)),
        crate::prompt::cache_tokens(messages, session.tools).len() <= u64::MAX,
    ensures
        ({
            let next = turn_move(turn, session, TurnEventView::Built(messages), duration_us);
            &&& next.action == TurnActionView::CallModel { messages, tools: session.tools }
            &&& next.session.history == session.history
            &&& next.turn.prompt_usage.estimated_hit_tokens
                + next.turn.prompt_usage.estimated_miss_tokens == next.turn.prompt_tokens.len()
            &&& session.last_prompt_cache_tokens is None
                ==> next.turn.prompt_usage.estimated_hit_tokens == 0
            &&& session.last_prompt_cache_tokens == Some(next.turn.prompt_tokens)
                ==> next.turn.prompt_usage.estimated_miss_tokens == 0
        }),
{
    crate::prompt::law_shared_prefix(
        match session.last_prompt_cache_tokens {
            Some(tokens) => tokens,
            None => Seq::empty(),
        },
        crate::prompt::cache_tokens(messages, session.tools),
    );
}

/// A report that was made is kept with the session, and the user is told of it where it is
/// new. The turn then goes on, or ends with its answer where it was the last report.
pub proof fn law_report_is_kept_and_told(
    turn: TurnView,
    session: SessionView,
    report: SessionStatusReportView,
    duration_us: u64,
)
    requires
        consistent(turn),
        awaited(turn, session, TurnEventView::Reported(report)),
    ensures
        ({
            let next = turn_move(turn, session, TurnEventView::Reported(report), duration_us);
            &&& next.session.status_report == Some(report)
            &&& next.session.history == session.history
            &&& session.status_report != Some(report) ==> next.effects.len() > 0
                && next.effects[0] == EffectView::Output(
                CoreOutputView::SessionStatusReport {
                    session_id: session.id,
                    report: Some(report),
                },
            )
            &&& turn.phase == TurnPhase::ReportingEnd ==> next.action == TurnActionView::Finished(
                TurnOutcomeView::Completed(Some(turn.text)),
            )
            &&& turn.phase == TurnPhase::ReportingProgress ==> next.action
                is ArchiveOldResults
        }),
{
}

/// A session in which a tool was cancelled asks the model nothing more in this turn.
pub proof fn law_cancelled_tool_ends_the_turn(
    turn: TurnView,
    session: SessionView,
    event: TurnEventView,
    duration_us: u64,
)
    requires
        consistent(turn),
        awaited(turn, session, event),
        turn.saw_cancelled || (event is Prepared && turn.completed[turn.recorded as int].result
            is Cancelled),
        event is Prepared || event is Plan,
    ensures
        ({
            let next = turn_move(turn, session, event, duration_us);
            &&& !(next.action is ArchiveOldResults)
            &&& !(next.action is GenerateReport)
            &&& next.turn.recorded == next.turn.completed.len() ==> next.action
                == TurnActionView::Finished(TurnOutcomeView::Cancelled) || next.action
                == TurnActionView::Finished(TurnOutcomeView::Suspended)
            &&& !(next.action is Finished) ==> next.turn.saw_cancelled
        }),
{
}

/// A turn touches of its session only the conversation, what it notes of the model, the report
/// and the state: everything else is as it was.
#[verifier::rlimit(40)]
pub proof fn law_turn_leaves_the_rest(
    turn: TurnView,
    session: SessionView,
    event: TurnEventView,
    duration_us: u64,
)
    requires
        consistent(turn),
        awaited(turn, session, event),
    ensures
        ({
            let after = turn_move(turn, session, event, duration_us).session;
            after == (SessionView {
                history: after.history,
                state: after.state,
                cancel_armed: after.cancel_armed,
                last_input_tokens: after.last_input_tokens,
                last_prompt_cache_tokens: after.last_prompt_cache_tokens,
                status_report: after.status_report,
                current_turn_tool_rounds: after.current_turn_tool_rounds,
                diagnostics: after.diagnostics,
                ..session
            })
        }),
{
    match event {
        TurnEventView::Archived(_) | TurnEventView::Compacted | TurnEventView::Built(_) => {},
        TurnEventView::Model(_) | TurnEventView::Reported(_) => {},
        TurnEventView::ToolFinished { .. } | TurnEventView::BatchFinished(_) => {},
        TurnEventView::Prepared(_) | TurnEventView::Plan(_) => {},
        _ => {},
    }
}

/// A turn keeps what it counts, but for an answer of the model and the notes on a prompt.
pub proof fn law_turn_counts_only_answers(
    turn: TurnView,
    session: SessionView,
    event: TurnEventView,
    duration_us: u64,
)
    requires
        consistent(turn),
        awaited(turn, session, event),
    ensures
        ({
            let next = turn_move(turn, session, event, duration_us);
            &&& next.turn.host == turn.host
            &&& !(event is Model) ==> next.turn.usage == turn.usage && next.turn.cache_usage
                == turn.cache_usage && next.session.last_input_tokens == session.last_input_tokens
            &&& !(event is Model) ==> next.turn.text == turn.text && next.turn.calls == turn.calls
            &&& !(event is Built) ==> next.turn.prompt_tokens == turn.prompt_tokens
                && next.turn.prompt_usage == turn.prompt_usage
        }),
{
}

/// When a history is compacted: where the last prompt has reached the percentage of the
/// window that is set for the session. What is left of the history goes to the model
/// otherwise.
pub proof fn law_full_window_is_compacted(
    turn: TurnView,
    session: SessionView,
    archives: Seq<Option<Seq<char>>>,
    duration_us: u64,
    window: u64,
    tokens: u64,
)
    requires
        consistent(turn),
        awaited(turn, session, TurnEventView::Archived(archives)),
        session.max_context_window == Some(window),
        session.last_input_tokens == Some(tokens),
        window * session.auto_compact_threshold_percent <= u64::MAX,
    ensures
        ({
            let next = turn_move(turn, session, TurnEventView::Archived(archives), duration_us);
            &&& tokens * 100 >= window * session.auto_compact_threshold_percent ==> next.action
                is Compact
            &&& (tokens + 1) * 100 <= window * session.auto_compact_threshold_percent ==> !(
            next.action is Compact)
            &&& !(next.action is Compact) && !session.interrupted ==> next.action
                is BuildMessages
        }),
{
    let product = window * session.auto_compact_threshold_percent;
    assert(product / 100 * 100 <= product < product / 100 * 100 + 100);
}

/// Without a window, or before the model has answered, nothing is compacted.
pub proof fn law_unknown_window_is_not_compacted(
    turn: TurnView,
    session: SessionView,
    archives: Seq<Option<Seq<char>>>,
    duration_us: u64,
)
    requires
        consistent(turn),
        awaited(turn, session, TurnEventView::Archived(archives)),
        session.max_context_window is None || session.last_input_tokens is None,
        !session.interrupted,
    ensures
        turn_move(turn, session, TurnEventView::Archived(archives), duration_us).action
            is BuildMessages,
{
}

/// When a report on the progress is made after a round of tools: in an actor each time that
/// as many rounds as the session says have passed, in the core from then on after each round.
pub proof fn law_progress_is_reported(
    turn: TurnView,
    session: SessionView,
    output: Seq<char>,
    duration_us: u64,
)
    requires
        consistent(turn),
        awaited(turn, session, TurnEventView::Prepared(output)),
        turn.recorded + 1 == turn.completed.len(),
        turn.completed[turn.recorded as int].tool_name != "plan"@,
        turn.completed[turn.recorded as int].result is Success,
        !turn.saw_cancelled,
        session.config.status_report_min_tool_rounds > 0,
    ensures
        ({
            let next = turn_move(turn, session, TurnEventView::Prepared(output), duration_us);
            let rounds = session.current_turn_tool_rounds as int;
            let every = session.config.status_report_min_tool_rounds as int;
            let due = match turn.host {
                Host::Actor => rounds > 0 && rounds % every == 0,
                Host::Core => rounds >= every,
            };
            &&& due ==> next.action == TurnActionView::GenerateReport {
                stage: StatusReportStage::ReviewingResults,
                calls: turn.completed.len() as usize,
            }
            &&& !due ==> next.action is ArchiveOldResults
        }),
{
    let rounds = session.current_turn_tool_rounds as int;
    let every = session.config.status_report_min_tool_rounds as int;
    if 0 < rounds < every {
        vstd::arithmetic::div_mod::lemma_small_mod(rounds as nat, every as nat);
    }
}

} // verus!
