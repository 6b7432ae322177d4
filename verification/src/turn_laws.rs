//! What holds of every turn.

use vstd::prelude::*;

use crate::channel::{outcome_text, CoreOutputView, TurnStatus};
use crate::context::SessionView;
use crate::effect::{state_effect, EffectView};
use crate::error::CoreErrorView;
use crate::message::{
    text_message, tool_result_message, tool_use_message, MessageContentView, MessageView,
    PendingToolCallView, Role, TokenUsage,
};
use crate::model_call::{ModelOutcomeView, ModelReplyView};
use crate::plan::{
    law_normalized, plan_message, plan_output, plan_output_with_prompt, updated_action, PlanStateView,
};
use crate::session::SessionState;
use crate::status_report::SessionStatusReportView;
use crate::tools::{batch_eligible, CompletedToolCallView};
use crate::turn::{
    accounted, after_calls, after_model, after_plan, after_preparing, all_recorded, awaited,
    cancelled, completed, consistent, counted, failed, noted, record_next, report_effects, request_effect,
    request_effects, requests, resolved, run_next, turn_complete, turn_move, with_report, Host,
    TurnActionView, TurnEventView, TurnOutcomeView, TurnPhase, TurnView,
};

verus! {

broadcast use vstd::seq::group_seq_axioms;

/// How the turns ended whose end is among effects.
pub open spec fn ends(effects: Seq<EffectView>) -> Seq<TurnStatus>
    decreases effects.len(),
{
    if effects.len() == 0 {
        Seq::empty()
    } else {
        match effects.last() {
            EffectView::Output(CoreOutputView::TurnComplete { status, .. }) => ends(
                effects.drop_last(),
            ).push(status),
            _ => ends(effects.drop_last()),
        }
    }
}

/// How a turn is reported to have ended. One that is suspended is not reported.
pub open spec fn reported_ends(action: TurnActionView) -> Seq<TurnStatus> {
    match action {
        TurnActionView::Finished(TurnOutcomeView::Completed(_)) => seq![TurnStatus::Success],
        TurnActionView::Finished(TurnOutcomeView::Failed(_)) => seq![TurnStatus::Failed],
        TurnActionView::Finished(TurnOutcomeView::Cancelled) => seq![TurnStatus::Cancelled],
        _ => Seq::empty(),
    }
}

proof fn lemma_ends_push(effects: Seq<EffectView>, effect: EffectView)
    ensures
        ends(effects.push(effect)) == (match effect {
            EffectView::Output(CoreOutputView::TurnComplete { status, .. }) => ends(effects).push(
                status,
            ),
            _ => ends(effects),
        }),
{
    assert(effects.push(effect).drop_last() =~= effects);
}

proof fn lemma_ends_none(effects: Seq<EffectView>, more: Seq<EffectView>)
    requires
        forall|i: int|
            0 <= i < more.len() ==> !((#[trigger] more[i]) is Output && more[i]->Output_0
                is TurnComplete),
    ensures
        ends(effects + more) == ends(effects),
    decreases more.len(),
{
    if more.len() == 0 {
        assert(effects + more =~= effects);
    } else {
        let front = more.drop_last();
        assert forall|i: int| 0 <= i < front.len() implies !((#[trigger] front[i]) is Output
            && front[i]->Output_0 is TurnComplete) by {
            assert(front[i] == more[i]);
        }
        lemma_ends_none(effects, front);
        assert((effects + more).drop_last() =~= effects + front);
        assert((effects + more).last() == more[more.len() - 1]);
    }
}

proof fn lemma_ends_of_reports(session: SessionView, report: Option<SessionStatusReportView>)
    ensures
        ends(report_effects(session, report)) == Seq::<TurnStatus>::empty(),
{
    let more = report_effects(session, report);
    lemma_ends_none(Seq::empty(), more);
    assert(Seq::<EffectView>::empty() + more =~= more);
}

proof fn lemma_ends_over_all_recorded(
    turn: TurnView,
    session: SessionView,
    effects: Seq<EffectView>,
    duration_us: u64,
)
    requires
        ends(effects) == Seq::<TurnStatus>::empty(),
    ensures
        ends(all_recorded(turn, session, effects, duration_us).effects) == reported_ends(
            all_recorded(turn, session, effects, duration_us).action,
        ),
        ends(cancelled(turn, session, effects, duration_us, true).effects) == seq![
            TurnStatus::Cancelled,
        ],
        ends(cancelled(turn, session, effects, duration_us, false).effects) == seq![
            TurnStatus::Cancelled,
        ],
{
    let told = effects + report_effects(session, None);
    lemma_ends_none(effects, report_effects(session, None));
    let e1 = told.push(state_effect(session.id, SessionState::Idle));
    lemma_ends_push(told, state_effect(session.id, SessionState::Idle));
    let complete = turn_complete(turn, session.id, duration_us, TurnStatus::Cancelled);
    let e2 = e1.push(complete);
    lemma_ends_push(e1, complete);
    assert(Seq::<TurnStatus>::empty().push(TurnStatus::Cancelled) =~= seq![TurnStatus::Cancelled]);
    lemma_ends_push(e2, EffectView::ConsiderMemoryRefresh);
    lemma_ends_push(e2.push(EffectView::ConsiderMemoryRefresh), EffectView::Checkpoint);
    lemma_ends_push(e2, EffectView::Checkpoint);
}

proof fn lemma_ends_over_record_next(
    turn: TurnView,
    session: SessionView,
    effects: Seq<EffectView>,
    duration_us: u64,
)
    requires
        ends(effects) == Seq::<TurnStatus>::empty(),
    ensures
        ends(record_next(turn, session, effects, duration_us).effects) == reported_ends(
            record_next(turn, session, effects, duration_us).action,
        ),
{
    if turn.recorded >= turn.completed.len() {
        lemma_ends_over_all_recorded(turn, session, effects, duration_us);
    } else {
        let last = record_next(turn, session, effects, duration_us).effects.last();
        lemma_ends_push(effects, last);
    }
}

proof fn lemma_ends_over_run_next(
    turn: TurnView,
    session: SessionView,
    effects: Seq<EffectView>,
    duration_us: u64,
)
    requires
        ends(effects) == Seq::<TurnStatus>::empty(),
    ensures
        ends(run_next(turn, session, effects, duration_us).effects) == reported_ends(
            run_next(turn, session, effects, duration_us).action,
        ),
{
    if turn.next >= turn.calls.len() {
        lemma_ends_over_record_next(turn, session, effects, duration_us);
    } else if session.interrupted {
        let e1 = effects.push(state_effect(session.id, SessionState::Idle));
        lemma_ends_push(effects, state_effect(session.id, SessionState::Idle));
        lemma_ends_push(
            e1,
            turn_complete(turn, session.id, duration_us, TurnStatus::Cancelled),
        );
    } else {
        lemma_ends_push(effects, request_effect(session.id, turn.calls[turn.next as int]));
    }
}

proof fn lemma_ends_over_failed(
    turn: TurnView,
    session: SessionView,
    effects: Seq<EffectView>,
    error: CoreErrorView,
    duration_us: u64,
    why: Seq<char>,
)
    requires
        ends(effects) == Seq::<TurnStatus>::empty(),
    ensures
        ends(failed(turn, session, effects, error, duration_us, why).effects) == seq![
            TurnStatus::Failed,
        ],
{
    let e1 = effects.push(state_effect(session.id, SessionState::Idle));
    lemma_ends_push(effects, state_effect(session.id, SessionState::Idle));
    let report = EffectView::Output(
        CoreOutputView::SessionError { session_id: session.id, error },
    );
    lemma_ends_push(e1, report);
    lemma_ends_push(
        e1.push(report),
        turn_complete(turn, session.id, duration_us, TurnStatus::Failed),
    );
}

proof fn lemma_ends_over_completed(
    turn: TurnView,
    session: SessionView,
    effects: Seq<EffectView>,
    duration_us: u64,
)
    requires
        ends(effects) == Seq::<TurnStatus>::empty(),
    ensures
        ends(completed(turn, session, effects, duration_us).effects) == seq![TurnStatus::Success],
{
    let text = EffectView::Output(
        CoreOutputView::TextComplete { session_id: session.id, full_text: turn.text },
    );
    lemma_ends_push(effects, text);
    let e1 = effects.push(text);
    let complete = turn_complete(turn, session.id, duration_us, TurnStatus::Success);
    lemma_ends_push(e1, complete);
    let e2 = e1.push(complete);
    lemma_ends_push(e2, state_effect(session.id, SessionState::Idle));
    let e3 = e2.push(state_effect(session.id, SessionState::Idle));
    lemma_ends_push(e3, EffectView::ConsiderMemoryRefresh);
    lemma_ends_push(e3.push(EffectView::ConsiderMemoryRefresh), EffectView::Checkpoint);
}

/// The end of a turn is reported when it ends, once, and as it ended. A turn that is
/// suspended is not reported: it goes on.
pub proof fn law_turn_end_is_reported_once(
    turn: TurnView,
    session: SessionView,
    event: TurnEventView,
    duration_us: u64,
)
    requires
        consistent(turn),
        awaited(turn, session, event),
    ensures
        ends(turn_move(turn, session, event, duration_us).effects) == reported_ends(
            turn_move(turn, session, event, duration_us).action,
        ),
{
    let none = Seq::<EffectView>::empty();
    assert(ends(none) == Seq::<TurnStatus>::empty());
    match event {
        TurnEventView::Archived(archives) => {
            lemma_ends_push(
                none,
                turn_complete(turn, session.id, duration_us, TurnStatus::Cancelled),
            );
            assert(none.push(turn_complete(turn, session.id, duration_us, TurnStatus::Cancelled))
                =~= seq![turn_complete(turn, session.id, duration_us, TurnStatus::Cancelled)]);
        },
        TurnEventView::Compacted => {
            lemma_ends_push(
                none,
                turn_complete(turn, session.id, duration_us, TurnStatus::Cancelled),
            );
            assert(none.push(turn_complete(turn, session.id, duration_us, TurnStatus::Cancelled))
                =~= seq![turn_complete(turn, session.id, duration_us, TurnStatus::Cancelled)]);
        },
        TurnEventView::ArchivingFailed(error) | TurnEventView::CompactionFailed(error)
        | TurnEventView::BuildingFailed(error) => {
            lemma_ends_over_failed(turn, session, none, error, duration_us, "session error"@);
        },
        TurnEventView::PreparingFailed(error) => {
            lemma_ends_over_failed(
                turn,
                SessionView { cancel_armed: false, ..session },
                none,
                error,
                duration_us,
                error.text(),
            );
        },
        TurnEventView::Built(_) => {},
        TurnEventView::Model(outcome) => {
            lemma_ends_of_model(turn, session, outcome, duration_us);
        },
        TurnEventView::Reported(report) => {
            lemma_ends_of_reports(session, Some(report));
            lemma_ends_over_completed(
                turn,
                with_report(session, Some(report)),
                report_effects(session, Some(report)),
                duration_us,
            );
        },
        TurnEventView::ToolFinished { outcome, duration_us: tool_us } => {
            let call = turn.calls[turn.next as int];
            let ended = CompletedToolCallView {
                index: turn.completed.len() as usize,
                tool_use_id: call.tool_use_id,
                tool_name: call.tool_name,
                arguments: call.arguments,
                result: outcome,
                duration_us: tool_us,
            };
            lemma_ends_over_run_next(
                TurnView {
                    completed: turn.completed.push(ended),
                    next: (turn.next + 1) as usize,
                    ..turn
                },
                session,
                none,
                duration_us,
            );
        },
        TurnEventView::BatchFinished(ended) => {
            lemma_ends_over_record_next(
                TurnView { completed: ended, ..turn },
                session,
                none,
                duration_us,
            );
        },
        TurnEventView::Prepared(output) => {
            lemma_ends_of_prepared(turn, session, output, duration_us);
        },
        TurnEventView::Plan(plan) => {
            lemma_ends_of_plan(turn, session, plan, duration_us);
        },
    }
}

proof fn lemma_ends_of_model(
    turn: TurnView,
    session: SessionView,
    outcome: ModelOutcomeView,
    duration_us: u64,
)
    ensures
        ends(after_model(turn, session, outcome, duration_us).effects) == reported_ends(
            after_model(turn, session, outcome, duration_us).action,
        ),
{
    let none = Seq::<EffectView>::empty();
    assert(ends(none) == Seq::<TurnStatus>::empty());
    match outcome {
        ModelOutcomeView::Interrupted => {
            let told = report_effects(session, None);
            lemma_ends_of_reports(session, None);
            lemma_ends_push(told, state_effect(session.id, SessionState::Idle));
            lemma_ends_push(
                told.push(state_effect(session.id, SessionState::Idle)),
                turn_complete(turn, session.id, duration_us, TurnStatus::Cancelled),
            );
        },
        ModelOutcomeView::Failed(error) => {
            lemma_ends_of_reports(session, None);
            lemma_ends_over_failed(
                turn,
                with_report(session, None),
                report_effects(session, None),
                error,
                duration_us,
                "session error"@,
            );
        },
        ModelOutcomeView::Answered(ModelReplyView::Text { text, usage }) => {
            let counted = TurnView { text, ..accounted(turn, usage) };
            let noting = noted(turn, session, usage);
            let told = SessionView {
                history: session.history.push(text_message(Role::Assistant, text)),
                ..noting
            };
            lemma_ends_over_completed(counted, told, none, duration_us);
        },
        ModelOutcomeView::Answered(ModelReplyView::ToolCalls { text_before, calls, usage }) => {
            let result = after_calls(turn, session, text_before, calls, usage, duration_us);
            let noting = noted(turn, session, usage);
            let told = SessionView {
                history: session.history.push(tool_use_message(text_before, requests(calls))),
                current_turn_tool_rounds: if session.current_turn_tool_rounds == u32::MAX {
                    u32::MAX
                } else {
                    (session.current_turn_tool_rounds + 1) as u32
                },
                ..noting
            };
            let effects = match text_before {
                Some(text) => seq![
                    EffectView::Output(
                        CoreOutputView::TextComplete { session_id: session.id, full_text: text },
                    ),
                ],
                None => Seq::empty(),
            };
            lemma_ends_none(none, effects);
            assert(none + effects =~= effects);
            let running = resolved(told.history, calls);
            let concurrent = turn.host == Host::Core && batch_eligible(told.registry, running);
            let begun = TurnView {
                calls: running,
                next: 0,
                completed: Seq::empty(),
                recorded: 0,
                saw_cancelled: false,
                concurrent,
                ..accounted(turn, usage)
            };
            if concurrent {
                lemma_ends_none(effects, request_effects(session.id, running));
            } else {
                lemma_ends_over_run_next(begun, told, effects, duration_us);
            }
        },
    }
}

proof fn lemma_ends_of_prepared(
    turn: TurnView,
    session: SessionView,
    output: Seq<char>,
    duration_us: u64,
)
    ensures
        ends(after_preparing(turn, session, output, duration_us).effects) == reported_ends(
            after_preparing(turn, session, output, duration_us).action,
        ),
{
    let none = Seq::<EffectView>::empty();
    let ended = turn.completed[turn.recorded as int];
    let told = SessionView {
        history: session.history.push(
            tool_result_message(ended.tool_use_id, output, outcome_text(ended.result).1),
        ),
        ..session
    };
    let noting = TurnView {
        saw_cancelled: turn.saw_cancelled || ended.result is Cancelled,
        ..turn
    };
    lemma_ends_over_all_recorded(turn, told, none, duration_us);
    lemma_ends_over_record_next(
        TurnView { recorded: (turn.recorded + 1) as usize, ..noting },
        told,
        none,
        duration_us,
    );
}

proof fn lemma_ends_of_plan(
    turn: TurnView,
    session: SessionView,
    plan: Option<PlanStateView>,
    duration_us: u64,
)
    ensures
        ends(after_plan(turn, session, plan, duration_us).effects) == reported_ends(
            after_plan(turn, session, plan, duration_us).action,
        ),
{
    let none = Seq::<EffectView>::empty();
    let ended = turn.completed[turn.recorded as int];
    let (plan_id, action_id) = updated_action(ended.tool_name, ended.arguments)->0;
    let onward = TurnView { recorded: (turn.recorded + 1) as usize, ..turn };
    match plan {
        None => {
            lemma_ends_over_record_next(onward, session, none, duration_us);
        },
        Some(plan) => match turn.host {
            Host::Actor => {
                let effects = match plan_output(session.id, plan, plan_id, action_id) {
                    Some(output) => seq![EffectView::Output(output)],
                    None => Seq::empty(),
                };
                lemma_ends_none(none, effects);
                assert(none + effects =~= effects);
                lemma_ends_over_record_next(onward, session, effects, duration_us);
            },
            Host::Core => {
                let effects = seq![
                    EffectView::Output(
                        plan_output_with_prompt(session.id, plan, plan_id, action_id),
                    ),
                ];
                lemma_ends_none(none, effects);
                assert(none + effects =~= effects);
                lemma_ends_over_record_next(
                    onward,
                    SessionView {
                        history: match plan_message(plan, plan_id) {
                            Some(message) => session.history.push(message),
                            None => session.history,
                        },
                        ..session
                    },
                    effects,
                    duration_us,
                );
            },
        },
    }
}

/// A turn that is over waits for nothing, and it is over exactly when it says how it ended.
pub proof fn law_over_is_over(
    turn: TurnView,
    session: SessionView,
    event: TurnEventView,
    duration_us: u64,
)
    ensures
        turn.phase == TurnPhase::Over ==> !awaited(turn, session, event),
        awaited(turn, session, event) ==> (turn_move(turn, session, event, duration_us).action
            is Finished <==> turn_move(turn, session, event, duration_us).turn.phase
            == TurnPhase::Over),
{
}

/// A session that was stopped is led to no further tool and to no further request to the model.
/// Tools that run side by side look for the stop when they begin, in
/// [`Session::begin_tool_batch`](crate::context::Session::begin_tool_batch).
pub proof fn law_stopped_session_does_nothing(
    turn: TurnView,
    session: SessionView,
    event: TurnEventView,
    duration_us: u64,
)
    requires
        consistent(turn),
        awaited(turn, session, event),
        session.interrupted,
    ensures
        !(turn_move(turn, session, event, duration_us).action is RunTool),
        !(turn_move(turn, session, event, duration_us).action is BuildMessages),
{
}

/// A turn that completes or fails leaves its session idle. One that is suspended leaves it
/// with the wait that it is suspended by, and nothing is sent.
pub proof fn law_end_of_turn(
    turn: TurnView,
    session: SessionView,
    event: TurnEventView,
    duration_us: u64,
)
    requires
        consistent(turn),
        awaited(turn, session, event),
    ensures
        match turn_move(turn, session, event, duration_us).action {
            TurnActionView::Finished(TurnOutcomeView::Completed(answer)) => {
                &&& turn_move(turn, session, event, duration_us).session.state
                    == SessionState::Idle
                &&& answer == Some(turn_move(turn, session, event, duration_us).turn.text)
            },
            TurnActionView::Finished(TurnOutcomeView::Failed(_)) => turn_move(
                turn,
                session,
                event,
                duration_us,
            ).session.state == SessionState::Idle,
            TurnActionView::Finished(TurnOutcomeView::Suspended) => {
                &&& turn_move(turn, session, event, duration_us).session.suspended_wait is Some
                &&& turn_move(turn, session, event, duration_us).effects.len() == 0
            },
            _ => true,
        },
{
}

/// The calls whose results are in a history, in the order in which they stand there.
pub open spec fn result_ids(history: Seq<MessageView>) -> Seq<Seq<char>>
    decreases history.len(),
{
    if history.len() == 0 {
        Seq::empty()
    } else {
        match history.last().content {
            MessageContentView::ToolResult { tool_use_id, .. } => result_ids(
                history.drop_last(),
            ).push(tool_use_id),
            _ => result_ids(history.drop_last()),
        }
    }
}

proof fn lemma_result_ids_push(history: Seq<MessageView>, message: MessageView)
    ensures
        result_ids(history.push(message)) == (match message.content {
            MessageContentView::ToolResult { tool_use_id, .. } => result_ids(history).push(
                tool_use_id,
            ),
            _ => result_ids(history),
        }),
{
    assert(history.push(message).drop_last() =~= history);
}

/// Nothing is taken out of the history but by archiving and compaction, and the results of
/// tools go into it one by one, in the order of the calls: the next one is the result of the
/// call that comes next.
pub proof fn law_history_grows_in_order(
    turn: TurnView,
    session: SessionView,
    event: TurnEventView,
    duration_us: u64,
)
    requires
        consistent(turn),
        awaited(turn, session, event),
        !(event is Archived),
    ensures
        session.history.is_prefix_of(turn_move(turn, session, event, duration_us).session.history),
        result_ids(turn_move(turn, session, event, duration_us).session.history) == (
        if event is Prepared {
            result_ids(session.history).push(turn.completed[turn.recorded as int].tool_use_id)
        } else {
            result_ids(session.history)
        }),
        event is Prepared && !turn.concurrent ==> turn.completed[turn.recorded as int].tool_use_id
            == turn.calls[turn.recorded as int].tool_use_id,
{
    let old_history = session.history;
    let new_history = turn_move(turn, session, event, duration_us).session.history;
    assert(old_history =~= old_history.subrange(0, old_history.len() as int));
    assert forall|message: MessageView| old_history.is_prefix_of(
        #[trigger] old_history.push(message),
    ) by {
        assert(old_history =~= old_history.push(message).subrange(0, old_history.len() as int));
    }
    match event {
        TurnEventView::Model(ModelOutcomeView::Answered(ModelReplyView::Text { text, usage })) => {
            lemma_result_ids_push(old_history, text_message(Role::Assistant, text));
            assert(new_history == old_history.push(text_message(Role::Assistant, text)));
        },
        TurnEventView::Model(
            ModelOutcomeView::Answered(ModelReplyView::ToolCalls { text_before, calls, usage }),
        ) => {
            lemma_result_ids_push(old_history, tool_use_message(text_before, requests(calls)));
            assert(new_history == old_history.push(tool_use_message(text_before, requests(calls))));
        },
        TurnEventView::Prepared(output) => {
            let ended = turn.completed[turn.recorded as int];
            let message = tool_result_message(
                ended.tool_use_id,
                output,
                outcome_text(ended.result).1,
            );
            lemma_result_ids_push(old_history, message);
            assert(new_history == old_history.push(message));
        },
        TurnEventView::Plan(Some(plan)) => {
            let ended = turn.completed[turn.recorded as int];
            let (plan_id, action_id) = updated_action(ended.tool_name, ended.arguments)->0;
            if let Some(message) = plan_message(plan, plan_id) {
                lemma_result_ids_push(old_history, message);
            }
        },
        _ => {},
    }
}

/// The identifiers of calls.
pub open spec fn call_ids(calls: Seq<PendingToolCallView>) -> Seq<Seq<char>> {
    calls.map_values(|c: PendingToolCallView| c.tool_use_id)
}

/// The identifiers of calls that have ended.
pub open spec fn ended_ids(ended: Seq<CompletedToolCallView>) -> Seq<Seq<char>> {
    ended.map_values(|c: CompletedToolCallView| c.tool_use_id)
}

/// How far a round of calls has come, where `before` are the results that stood in the history
/// when the model called: no result is recorded while tools run, and once results are recorded
/// every call has ended, and the history holds the results of the first ones.
pub open spec fn round_so_far(
    turn: TurnView,
    session: SessionView,
    before: Seq<Seq<char>>,
) -> bool {
    match turn.phase {
        TurnPhase::Running | TurnPhase::RunningBatch => result_ids(session.history) == before,
        TurnPhase::Recording | TurnPhase::Planning | TurnPhase::ReportingProgress => {
            let answered: int = if turn.phase == TurnPhase::Planning {
                turn.recorded + 1
            } else {
                turn.recorded as int
            };
            &&& ended_ids(turn.completed) == call_ids(turn.calls)
            &&& result_ids(session.history) == before + call_ids(turn.calls).take(answered)
            &&& turn.phase == TurnPhase::ReportingProgress ==> turn.recorded == turn.calls.len()
        },
        _ => true,
    }
}

proof fn lemma_record_next_in_round(
    turn: TurnView,
    session: SessionView,
    effects: Seq<EffectView>,
    duration_us: u64,
    before: Seq<Seq<char>>,
)
    requires
        turn.recorded <= turn.completed.len(),
        ended_ids(turn.completed) == call_ids(turn.calls),
        result_ids(session.history) == before + call_ids(turn.calls).take(turn.recorded as int),
    ensures
        ({
            let next = record_next(turn, session, effects, duration_us);
            &&& round_so_far(next.turn, next.session, before)
            &&& next.action is ArchiveOldResults ==> result_ids(next.session.history) == before
                + call_ids(next.turn.calls)
        }),
{
    let next = record_next(turn, session, effects, duration_us);
    assert(turn.completed.len() == ended_ids(turn.completed).len());
    assert(turn.calls.len() == call_ids(turn.calls).len());
    assert(next.turn == TurnView { phase: next.turn.phase, ..turn });
    assert(next.session.history == session.history);
    if turn.recorded >= turn.completed.len() {
        assert(call_ids(turn.calls).take(turn.recorded as int) =~= call_ids(turn.calls));
    }
}

proof fn lemma_run_next_in_round(
    turn: TurnView,
    session: SessionView,
    effects: Seq<EffectView>,
    duration_us: u64,
    before: Seq<Seq<char>>,
)
    requires
        counted(turn),
        !turn.concurrent,
        turn.completed.len() == turn.next,
        turn.recorded == 0,
        result_ids(session.history) == before,
    ensures
        ({
            let next = run_next(turn, session, effects, duration_us);
            &&& round_so_far(next.turn, next.session, before)
            &&& next.action is ArchiveOldResults ==> result_ids(next.session.history) == before
                + call_ids(next.turn.calls)
        }),
{
    if turn.next >= turn.calls.len() {
        assert(ended_ids(turn.completed) =~= call_ids(turn.calls));
        assert(before + call_ids(turn.calls).take(0) =~= before);
        lemma_record_next_in_round(turn, session, effects, duration_us, before);
    }
}

/// Every call is answered before the model is asked again: the history then holds, behind the
/// results that stood there when the model called, one result for each call, in the order of
/// the calls.
pub proof fn law_every_call_is_answered(
    turn: TurnView,
    session: SessionView,
    event: TurnEventView,
    duration_us: u64,
    before: Seq<Seq<char>>,
)
    requires
        consistent(turn),
        awaited(turn, session, event),
        round_so_far(turn, session, before),
        event matches TurnEventView::BatchFinished(ended) ==> ended.len() <= usize::MAX
            && ended_ids(ended) == call_ids(turn.calls),
        event matches TurnEventView::Model(
            ModelOutcomeView::Answered(ModelReplyView::ToolCalls { calls, .. }),
        ) ==> calls.len() <= usize::MAX,
    ensures
        ({
            let next = turn_move(turn, session, event, duration_us);
            let since = if event is Model {
                result_ids(session.history)
            } else {
                before
            };
            &&& round_so_far(next.turn, next.session, since)
            &&& next.action is ArchiveOldResults ==> result_ids(next.session.history) == since
                + call_ids(next.turn.calls)
            &&& event matches TurnEventView::Model(
                ModelOutcomeView::Answered(ModelReplyView::ToolCalls { calls, .. }),
            ) ==> call_ids(next.turn.calls) == call_ids(calls)
        }),
{
    let ids = call_ids(turn.calls);
    let next = turn_move(turn, session, event, duration_us);
    if !(event is Archived) {
        law_history_grows_in_order(turn, session, event, duration_us);
    }
    match event {
        TurnEventView::Model(
            ModelOutcomeView::Answered(ModelReplyView::ToolCalls { text_before, calls, usage }),
        ) => {
            lemma_calls_in_round(turn, session, text_before, calls, usage, duration_us);
        },
        TurnEventView::ToolFinished { outcome, duration_us: tool_us } => {
            let call = turn.calls[turn.next as int];
            let ended = CompletedToolCallView {
                index: turn.completed.len() as usize,
                tool_use_id: call.tool_use_id,
                tool_name: call.tool_name,
                arguments: call.arguments,
                result: outcome,
                duration_us: tool_us,
            };
            lemma_run_next_in_round(
                TurnView {
                    completed: turn.completed.push(ended),
                    next: (turn.next + 1) as usize,
                    ..turn
                },
                session,
                Seq::empty(),
                duration_us,
                before,
            );
        },
        TurnEventView::BatchFinished(ended) => {
            assert(before + ids.take(0) =~= before);
            lemma_record_next_in_round(
                TurnView { completed: ended, ..turn },
                session,
                Seq::empty(),
                duration_us,
                before,
            );
        },
        TurnEventView::Prepared(output) => {
            let ended = turn.completed[turn.recorded as int];
            assert(ended_ids(turn.completed)[turn.recorded as int] == ended.tool_use_id);
            assert((before + ids.take(turn.recorded as int)).push(ended.tool_use_id) =~= before
                + ids.take(turn.recorded + 1));
            let told = SessionView {
                history: session.history.push(
                    tool_result_message(ended.tool_use_id, output, outcome_text(ended.result).1),
                ),
                ..session
            };
            let noting = TurnView {
                saw_cancelled: turn.saw_cancelled || ended.result is Cancelled,
                ..turn
            };
            assert(next.session.history == told.history);
            lemma_record_next_in_round(
                TurnView { recorded: (turn.recorded + 1) as usize, ..noting },
                told,
                Seq::empty(),
                duration_us,
                before,
            );
        },
        TurnEventView::Plan(plan) => {
            lemma_plan_in_round(turn, session, plan, duration_us, before);
        },
        TurnEventView::Reported(report) => {
            assert(ids.take(turn.recorded as int) =~= ids || turn.phase
                != TurnPhase::ReportingProgress);
        },
        _ => {},
    }
}

proof fn lemma_calls_in_round(
    turn: TurnView,
    session: SessionView,
    text_before: Option<Seq<char>>,
    calls: Seq<PendingToolCallView>,
    usage: Option<TokenUsage>,
    duration_us: u64,
)
    requires
        calls.len() <= usize::MAX,
    ensures
        ({
            let next = after_calls(turn, session, text_before, calls, usage, duration_us);
            let since = result_ids(session.history);
            &&& round_so_far(next.turn, next.session, since)
            &&& next.action is ArchiveOldResults ==> result_ids(next.session.history) == since
                + call_ids(next.turn.calls)
            &&& call_ids(next.turn.calls) == call_ids(calls)
        }),
{
    let noting = noted(turn, session, usage);
    let message = tool_use_message(text_before, requests(calls));
    let told = SessionView {
        history: session.history.push(message),
        current_turn_tool_rounds: if session.current_turn_tool_rounds == u32::MAX {
            u32::MAX
        } else {
            (session.current_turn_tool_rounds + 1) as u32
        },
        ..noting
    };
    let effects = match text_before {
        Some(text) => seq![
            EffectView::Output(
                CoreOutputView::TextComplete { session_id: session.id, full_text: text },
            ),
        ],
        None => Seq::empty(),
    };
    let running = resolved(told.history, calls);
    let concurrent = turn.host == Host::Core && batch_eligible(told.registry, running);
    let begun = TurnView {
        calls: running,
        next: 0,
        completed: Seq::empty(),
        recorded: 0,
        saw_cancelled: false,
        concurrent,
        ..accounted(turn, usage)
    };
    let next = after_calls(turn, session, text_before, calls, usage, duration_us);
    lemma_result_ids_push(session.history, message);
    assert forall|i: int| 0 <= i < calls.len() implies (#[trigger] call_ids(running)[i])
        == call_ids(calls)[i] by {
        law_normalized(told.history, calls[i], Seq::empty());
    }
    assert(call_ids(running) =~= call_ids(calls));
    assert(next.turn.calls == running);
    if !concurrent {
        lemma_run_next_in_round(
            begun,
            told,
            effects,
            duration_us,
            result_ids(session.history),
        );
    }
}

proof fn lemma_plan_in_round(
    turn: TurnView,
    session: SessionView,
    plan: Option<PlanStateView>,
    duration_us: u64,
    before: Seq<Seq<char>>,
)
    requires
        consistent(turn),
        turn.phase == TurnPhase::Planning,
        round_so_far(turn, session, before),
    ensures
        ({
            let next = after_plan(turn, session, plan, duration_us);
            &&& round_so_far(next.turn, next.session, before)
            &&& next.action is ArchiveOldResults ==> result_ids(next.session.history) == before
                + call_ids(next.turn.calls)
        }),
{
    let ended = turn.completed[turn.recorded as int];
    let (plan_id, action_id) = updated_action(ended.tool_name, ended.arguments)->0;
    let onward = TurnView { recorded: (turn.recorded + 1) as usize, ..turn };
    match plan {
        None => {
            lemma_record_next_in_round(onward, session, Seq::empty(), duration_us, before);
        },
        Some(plan) => match turn.host {
            Host::Actor => {
                let effects = match plan_output(session.id, plan, plan_id, action_id) {
                    Some(output) => seq![EffectView::Output(output)],
                    None => Seq::empty(),
                };
                lemma_record_next_in_round(onward, session, effects, duration_us, before);
            },
            Host::Core => {
                let told = SessionView {
                    history: match plan_message(plan, plan_id) {
                        Some(message) => session.history.push(message),
                        None => session.history,
                    },
                    ..session
                };
                if let Some(message) = plan_message(plan, plan_id) {
                    lemma_result_ids_push(session.history, message);
                }
                let effects = seq![
                    EffectView::Output(
                        plan_output_with_prompt(session.id, plan, plan_id, action_id),
                    ),
                ];
                lemma_record_next_in_round(onward, told, effects, duration_us, before);
            },
        },
    }
}

} // verus!
