//! How a turn goes on: every call is run, every result is recorded, and the model is asked
//! again, unless the session was stopped.

use vstd::prelude::*;

use crate::channel::ToolOutcomeView;
use crate::compaction::archived_history;
use crate::context::SessionView;
use crate::effect::EffectView;
use crate::message::{PendingToolCallView, TokenUsage};
use crate::model_call::{ModelOutcomeView, ModelReplyView};
use crate::plan::{plan_message, plan_output, plan_output_with_prompt, PlanStateView};
use crate::session::SessionState;
use crate::status_report::StatusReportStage;
use crate::tools::{batch_eligible, CompletedToolCallView};
use crate::turn::{
    awaited, consistent, turn_move, Host, TurnActionView, TurnEventView, TurnOutcomeView,
    TurnPhase, TurnView,
};

verus! {

broadcast use vstd::seq::group_seq_axioms;

/// Results that were archived are noted in the history where they stood, and nothing else of
/// the history changes before the model is asked.
pub proof fn law_archives_are_noted(
    turn: TurnView,
    session: SessionView,
    archives: Seq<Option<Seq<char>>>,
    duration_us: u64,
)
    requires
        awaited(turn, session, TurnEventView::Archived(archives)),
    ensures
        turn_move(
            turn,
            session,
            TurnEventView::Archived(archives),
            duration_us,
        ).session.history == archived_history(session.history, archives),
        turn_move(turn, session, TurnEventView::Compacted, duration_us).session == session,
{
}

/// A session that was stopped asks the model nothing and runs no tool: its turn is cancelled.
pub proof fn law_stopped_turn_ends(
    turn: TurnView,
    session: SessionView,
    outcome: ToolOutcomeView,
    tool_us: u64,
    duration_us: u64,
)
    requires
        session.interrupted,
        consistent(turn),
    ensures
        turn_move(turn, session, TurnEventView::Compacted, duration_us).action
            == TurnActionView::Finished(TurnOutcomeView::Cancelled),
        turn.phase == TurnPhase::Running && turn.next + 1 < turn.calls.len() ==> turn_move(
            turn,
            session,
            TurnEventView::ToolFinished { outcome, duration_us: tool_us },
            duration_us,
        ).action == TurnActionView::Finished(TurnOutcomeView::Cancelled),
{
}

/// An answer that was broken off by a stop ends the turn, and the report is taken back.
pub proof fn law_broken_off_answer(turn: TurnView, session: SessionView, duration_us: u64)
    ensures
        ({
            let next = turn_move(
                turn,
                session,
                TurnEventView::Model(ModelOutcomeView::Interrupted),
                duration_us,
            );
            &&& next.action == TurnActionView::Finished(TurnOutcomeView::Cancelled)
            &&& next.session == (SessionView { status_report: None, ..session })
        }),
{
}

/// The calls of an answer are run: all at once where the core may do so, else the first of
/// them.
pub proof fn law_calls_are_run(
    turn: TurnView,
    session: SessionView,
    text_before: Option<Seq<char>>,
    calls: Seq<PendingToolCallView>,
    usage: Option<TokenUsage>,
    duration_us: u64,
)
    requires
        !session.interrupted,
        0 < calls.len() <= usize::MAX,
    ensures
        ({
            let next = turn_move(
                turn,
                session,
                TurnEventView::Model(
                    ModelOutcomeView::Answered(
                        ModelReplyView::ToolCalls { text_before, calls, usage },
                    ),
                ),
                duration_us,
            );
            let at_once = turn.host == Host::Core && batch_eligible(
                session.registry,
                next.turn.calls,
            );
            &&& at_once ==> next.action == TurnActionView::RunBatch(next.turn.calls)
            &&& !at_once ==> next.action == TurnActionView::RunTool(next.turn.calls[0])
            &&& next.turn.concurrent == at_once
            &&& !next.turn.saw_cancelled
        }),
{
}

/// When a tool has ended the next one is run; when the last one has, the first result is
/// recorded.
pub proof fn law_next_tool_is_run(
    turn: TurnView,
    session: SessionView,
    outcome: ToolOutcomeView,
    tool_us: u64,
    duration_us: u64,
)
    requires
        !session.interrupted,
        consistent(turn),
        turn.phase == TurnPhase::Running,
    ensures
        ({
            let next = turn_move(
                turn,
                session,
                TurnEventView::ToolFinished { outcome, duration_us: tool_us },
                duration_us,
            );
            &&& turn.next + 1 < turn.calls.len() ==> next.action == TurnActionView::RunTool(
                turn.calls[turn.next + 1],
            )
            &&& turn.next + 1 == turn.calls.len() ==> next.action is PrepareResult
                && next.turn.recorded == 0
            &&& next.session == session
        }),
{
}

/// When calls that ran at once have ended, their results are recorded as they came.
pub proof fn law_results_of_a_batch(
    turn: TurnView,
    session: SessionView,
    ended: Seq<CompletedToolCallView>,
    duration_us: u64,
)
    requires
        consistent(turn),
        turn.phase == TurnPhase::RunningBatch,
    ensures
        ({
            let next = turn_move(
                turn,
                session,
                TurnEventView::BatchFinished(ended),
                duration_us,
            );
            &&& next.turn.completed == ended
            &&& ended.len() > 0 ==> next.action is PrepareResult && next.turn.recorded == 0
            &&& ended.len() > 0 ==> next.session == session
        }),
{
}

/// When a result is in the history the next one is recorded. A call that was suspended ends
/// the turn as suspended, and one that was cancelled ends it in the core.
pub proof fn law_next_result_is_recorded(
    turn: TurnView,
    session: SessionView,
    output: Seq<char>,
    duration_us: u64,
)
    requires
        consistent(turn),
        turn.phase == TurnPhase::Recording,
    ensures
        ({
            let ended = turn.completed[turn.recorded as int];
            let next = turn_move(turn, session, TurnEventView::Prepared(output), duration_us);
            let was_cancelled = ended.result is Cancelled;
            &&& was_cancelled && session.suspended_wait is Some ==> next.action
                == TurnActionView::Finished(TurnOutcomeView::Suspended)
            &&& was_cancelled && session.suspended_wait is None && turn.host == Host::Core
                && !turn.concurrent ==> next.action == TurnActionView::Finished(
                TurnOutcomeView::Cancelled,
            )
            &&& !was_cancelled && ended.tool_name != "plan"@ && turn.recorded + 1
                < turn.completed.len() ==> next.action is PrepareResult && next.turn.recorded
                == turn.recorded + 1
            &&& next.action is ShowPlan ==> ended.tool_name == "plan"@
            &&& ended.tool_name == "plan"@ && !was_cancelled && ended.arguments.text("operation"@)
                == Some("update_plan"@) ==> (ended.arguments.text("plan_id"@) matches Some(plan)
                ==> (ended.arguments.text("action_id"@) matches Some(action) ==> next.action == (
            TurnActionView::ShowPlan { plan_id: plan, action_id: action })))
        }),
{
}

/// How a plan has moved on is told, and in the core the model is told what is next.
pub proof fn law_plan_goes_on(
    turn: TurnView,
    session: SessionView,
    plan: PlanStateView,
    duration_us: u64,
    plan_id: Seq<char>,
    action_id: Seq<char>,
)
    requires
        consistent(turn),
        turn.phase == TurnPhase::Planning,
        turn.completed[turn.recorded as int].arguments.text("plan_id"@) == Some(plan_id),
        turn.completed[turn.recorded as int].arguments.text("action_id"@) == Some(action_id),
    ensures
        ({
            let next = turn_move(turn, session, TurnEventView::Plan(Some(plan)), duration_us);
            let none = turn_move(turn, session, TurnEventView::Plan(None), duration_us);
            &&& turn.host == Host::Core ==> next.effects.len() > 0 && next.effects[0]
                == EffectView::Output(
                plan_output_with_prompt(session.id, plan, plan_id, action_id),
            )
            &&& turn.host == Host::Actor ==> (plan_output(session.id, plan, plan_id, action_id)
                matches Some(output) ==> next.effects.len() > 0 && next.effects[0]
                == EffectView::Output(output))
            &&& turn.host == Host::Core ==> next.session.history == (match plan_message(
                plan,
                plan_id,
            ) {
                Some(message) => session.history.push(message),
                None => session.history,
            })
            &&& turn.host == Host::Actor ==> next.session.history == session.history
            &&& none.session.history == session.history
            &&& next.turn.recorded == turn.recorded + 1
            &&& none.turn.recorded == turn.recorded + 1
        }),
{
}

/// Whether an answer is followed by a last report: in an actor where there was a report or so
/// many rounds have passed, in the core where at least so many have.
pub proof fn law_last_report(
    turn: TurnView,
    session: SessionView,
    text: Seq<char>,
    usage: Option<TokenUsage>,
    duration_us: u64,
)
    requires
        session.config.status_report_min_tool_rounds > 0,
    ensures
        ({
            let next = turn_move(
                turn,
                session,
                TurnEventView::Model(
                    ModelOutcomeView::Answered(ModelReplyView::Text { text, usage }),
                ),
                duration_us,
            );
            let rounds = session.current_turn_tool_rounds as int;
            let every = session.config.status_report_min_tool_rounds as int;
            let due = match turn.host {
                Host::Actor => session.status_report is Some || (rounds > 0 && rounds % every == 0),
                Host::Core => rounds >= every,
            };
            &&& due ==> next.action == (TurnActionView::GenerateReport {
                stage: StatusReportStage::Completed,
                calls: 0,
            })
            &&& !due ==> next.action == TurnActionView::Finished(
                TurnOutcomeView::Completed(Some(text)),
            )
            &&& !due ==> next.session.state == SessionState::Idle
        }),
{
    let rounds = session.current_turn_tool_rounds as int;
    let every = session.config.status_report_min_tool_rounds as int;
    if 0 < rounds < every {
        vstd::arithmetic::div_mod::lemma_small_mod(rounds as nat, every as nat);
    }
}

} // verus!
