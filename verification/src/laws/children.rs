//! What the core does for sessions that make other sessions and wait for them.

use vstd::prelude::*;

use crate::actor::PendingResultView;
use crate::channel::{CoreOutputView, ReplyId, ToolOutcomeView};
use crate::context::{
    PermissionPromptBehavior, SessionMemoryView, SessionView, ToolBeltView,
};
use crate::core_loop::{ChildDefaultsView, CoreInputView};
use crate::core_sessions::{
    child_begun, child_of, child_over, edges_of, left_after_stop, resumed_session, tool_input,
    unsuspended, waiting_parents, with_changed, SessionList, ToolInputView,
};
use crate::effect::{EffectView, ReplyView};
use crate::message::{MessageContentView, MessageView, Role};
use crate::prompt::ProjectInstructionsView;
use crate::session::{ExitStatusView, SessionId, SessionSignal, SessionState};
use crate::session_tree::SessionTreeView;
use crate::table::entry;
use crate::turn::TurnOutcomeView;
use crate::wait::SuspendedWaitView;

verus! {

broadcast use vstd::seq::group_seq_axioms;

/// A session that another makes is there with what it was made of, is a child of that session,
/// and gets its task as its first user message, behind everything that waits. The host is told,
/// and the state is saved.
pub proof fn law_child_begins_with_its_task(
    sessions: SessionList,
    tree: SessionTreeView,
    deferred: Seq<CoreInputView>,
    parent_id: SessionId,
    child: SessionView,
    task: Seq<char>,
    turn_id: Seq<char>,
    other: SessionId,
)
    ensures
        ({
            let after = child_begun(sessions, tree, deferred, parent_id, child, task, turn_id);
            &&& entry(after.sessions, child.id) == Some(child)
            &&& other != child.id ==> entry(after.sessions, other) == entry(sessions, other)
            &&& entry(after.tree.parents, child.id) == Some(parent_id)
            &&& other != child.id ==> entry(after.tree.parents, other) == entry(tree.parents, other)
            &&& after.tree == (SessionTreeView { parents: after.tree.parents, ..tree })
            &&& after.deferred == deferred.push(
                CoreInputView::UserMessage { session_id: child.id, content: task, turn_id },
            )
            &&& after.effects == seq![
                EffectView::Output(CoreOutputView::ChildSpawned { parent_id, child_id: child.id }),
                EffectView::Output(
                    CoreOutputView::SessionStateChanged {
                        session_id: child.id,
                        state: SessionState::Idle,
                    },
                ),
                EffectView::Checkpoint,
            ]
        }),
{
    crate::table::law_entries(sessions, child.id, child, child.id);
    crate::table::law_entries(sessions, child.id, child, other);
    crate::table::law_entries(tree.parents, child.id, parent_id, child.id);
    crate::table::law_entries(tree.parents, child.id, parent_id, other);
}

/// A session that another makes has the model and the group of its parent and its window where
/// that is known, the prompt that it was given, and an empty history behind the prompt.
pub proof fn law_child_takes_after_its_parent(
    sessions: SessionList,
    parent_id: SessionId,
    child_id: SessionId,
    defaults: ChildDefaultsView,
    system_prompt: Option<Seq<char>>,
    prompt_behavior: PermissionPromptBehavior,
    belt: ToolBeltView,
    instructions: Option<ProjectInstructionsView>,
    memory: SessionMemoryView,
    created_at: Seq<char>,
    parent: SessionView,
)
    requires
        entry(sessions, parent_id) == Some(parent),
    ensures
        ({
            let child = child_of(
                sessions,
                parent_id,
                child_id,
                defaults,
                system_prompt,
                prompt_behavior,
                belt,
                instructions,
                memory,
                created_at,
            );
            &&& child.id == child_id
            &&& child.config.model_profile == parent.config.model_profile
            &&& child.config.session_group == parent.config.session_group
            &&& parent.max_context_window is Some ==> child.max_context_window
                == parent.max_context_window
            &&& parent.max_context_window is None ==> child.max_context_window
                == defaults.max_context_window
            &&& child.config.system_prompt == system_prompt
            &&& child.config.prompt_behavior == prompt_behavior
            &&& child.config.working_directory == defaults.working_directory
            &&& !child.config.plan_mode
            &&& child.history.len() == 1
            &&& child.history[0].role == Role::System
            &&& child.memory == memory
            &&& child.created_at == created_at
            &&& child.state == SessionState::Idle
        }),
{
}

/// How a child ended whose turn is over.
pub open spec fn ended_as(session: SessionView, outcome: TurnOutcomeView, status: ExitStatusView) -> bool {
    match outcome {
        TurnOutcomeView::Completed(Some(answer)) => status == (ExitStatusView::Success {
            output: answer,
        }),
        TurnOutcomeView::Completed(None) => status == (ExitStatusView::Success {
            output: match crate::context::last_said(session.history) {
                Some(said) => said,
                None => Seq::empty(),
            },
        }),
        TurnOutcomeView::Failed(error) => status == (ExitStatusView::Failed { error }),
        TurnOutcomeView::Cancelled => status == ExitStatusView::Cancelled,
        TurnOutcomeView::Suspended => false,
    }
}

proof fn lemma_parent_is_listed(sessions: SessionList, i: int, child: SessionId)
    requires
        0 <= i < sessions.len(),
        sessions[i].1.suspended_wait matches Some(SuspendedWaitView::ChildExit { child_id, .. })
            && child_id == child,
    ensures
        waiting_parents(sessions, child).contains(sessions[i].0),
    decreases sessions.len(),
{
    let front = sessions.drop_last();
    let all = waiting_parents(sessions, child);
    if i == sessions.len() - 1 {
        assert(all[all.len() - 1] == sessions[i].0);
    } else {
        assert(front[i] == sessions[i]);
        lemma_parent_is_listed(front, i, child);
        let before = waiting_parents(front, child);
        let k = choose|k: int| 0 <= k < before.len() && before[k] == sessions[i].0;
        assert(all[k] == before[k]);
    }
}

proof fn lemma_waiter_is_answered(waiters: Seq<(SessionId, ReplyId)>, i: int)
    requires
        0 <= i < waiters.len(),
    ensures
        crate::session_tree::waiting_for(waiters, waiters[i].0).contains(waiters[i].1),
    decreases waiters.len(),
{
    let id = waiters[i].0;
    let front = waiters.drop_last();
    let all = crate::session_tree::waiting_for(waiters, id);
    if i == waiters.len() - 1 {
        assert(all[all.len() - 1] == waiters[i].1);
    } else {
        lemma_waiter_is_answered(front, i);
        assert(front[i] == waiters[i]);
        let before = crate::session_tree::waiting_for(front, id);
        let k = choose|k: int| 0 <= k < before.len() && before[k] == waiters[i].1;
        assert(all[k] == before[k]);
    }
}

proof fn lemma_others_stay_in_place(
    sessions: SessionList,
    id: SessionId,
    changed: SessionView,
    i: int,
)
    requires
        0 <= i < sessions.len(),
        sessions[i].0 != id,
    ensures
        crate::table::replaced(sessions, id, changed).len() == sessions.len(),
        crate::table::replaced(sessions, id, changed)[i] == sessions[i],
    decreases sessions.len(),
{
    if sessions[0].0 != id {
        let rest = sessions.drop_first();
        if i > 0 {
            assert(rest[i - 1] == sessions[i]);
            lemma_others_stay_in_place(rest, id, changed, i - 1);
        } else {
            lemma_same_length(rest, id, changed);
        }
    }
}

proof fn lemma_same_length(sessions: SessionList, id: SessionId, changed: SessionView)
    ensures
        crate::table::replaced(sessions, id, changed).len() == sessions.len(),
    decreases sessions.len(),
{
    if sessions.len() > 0 && sessions[0].0 != id {
        lemma_same_length(sessions.drop_first(), id, changed);
    }
}

/// When the turn of a child is over, how it ended is on record, everyone who asked is answered
/// with it, its parent is told, and every other session that waits for it is woken. One whose
/// turn is suspended has not ended.
pub proof fn law_end_of_a_turn_ends_a_child(
    sessions: SessionList,
    tree: SessionTreeView,
    deferred: Seq<CoreInputView>,
    id: SessionId,
    outcome: TurnOutcomeView,
    session: SessionView,
    i: int,
)
    requires
        entry(sessions, id) == Some(session),
        !(outcome is Suspended),
    ensures
        ({
            let after = child_over(sessions, tree, deferred, id, outcome);
            &&& entry(after.tree.exits, id) matches Some(status)
            &&& ended_as(session, outcome, status)
            &&& after.tree == (SessionTreeView {
                exits: after.tree.exits,
                waiters: after.tree.waiters,
                waits: after.tree.waits,
                ..tree
            })
            &&& 0 <= i < tree.waiters.len() && tree.waiters[i].0 == id ==> after.effects.contains(
                EffectView::Reply {
                    to: tree.waiters[i].1,
                    reply: ReplyView::Exit(Some(status)),
                },
            )
            &&& entry(tree.parents, id) matches Some(parent_id) ==> after.effects.contains(
                EffectView::Output(
                    CoreOutputView::ChildExited { parent_id, child_id: id, status },
                ),
            )
            &&& after.effects.contains(
                EffectView::Output(
                    CoreOutputView::SessionStateChanged {
                        session_id: id,
                        state: SessionState::Destroyed,
                    },
                ),
            )
            &&& after.effects.last() == EffectView::Checkpoint
            &&& deferred.len() <= after.deferred.len()
            &&& after.deferred.take(deferred.len() as int) == deferred
            &&& 0 <= i < sessions.len() && sessions[i].0 != id && (
            sessions[i].1.suspended_wait matches Some(SuspendedWaitView::ChildExit { child_id, .. })
                && child_id == id) ==> after.deferred.contains(
                CoreInputView::ToolResult {
                    session_id: sessions[i].0,
                    tool_use_id: "__resume_wait_child__"@,
                    result: ToolOutcomeView::Success { output: Seq::empty() },
                },
            )
        }),
{
    let after = child_over(sessions, tree, deferred, id, outcome);
    let status = crate::actor::exit_of(session, outcome)->0;
    crate::table::law_entries(tree.exits, id, status, id);
    let waiting = crate::session_tree::waiting_for(tree.waiters, id);
    let n = waiting.len() as int;
    if 0 <= i < tree.waiters.len() && tree.waiters[i].0 == id {
        lemma_waiter_is_answered(tree.waiters, i);
        let k = choose|k: int| 0 <= k < waiting.len() && waiting[k] == tree.waiters[i].1;
        assert(after.effects[k] == (EffectView::Reply {
            to: tree.waiters[i].1,
            reply: ReplyView::Exit(Some(status)),
        }));
    }
    assert(after.effects[n] == EffectView::Output(
        CoreOutputView::SessionStateChanged { session_id: id, state: SessionState::Destroyed },
    ));
    if let Some(parent_id) = entry(tree.parents, id) {
        assert(after.effects[n + 1] == EffectView::Output(
            CoreOutputView::ChildExited { parent_id, child_id: id, status },
        ));
    }
    assert(after.deferred.take(deferred.len() as int) =~= deferred);
    if 0 <= i < sessions.len() && sessions[i].0 != id && (
    sessions[i].1.suspended_wait matches Some(SuspendedWaitView::ChildExit { child_id, .. })
        && child_id == id) {
        let destroyed = crate::table::replaced(
            sessions,
            id,
            SessionView { state: SessionState::Destroyed, ..session },
        );
        lemma_others_stay_in_place(
            sessions,
            id,
            SessionView { state: SessionState::Destroyed, ..session },
            i,
        );
        lemma_parent_is_listed(destroyed, i, id);
        let parents = waiting_parents(destroyed, id);
        let k = choose|k: int| 0 <= k < parents.len() && parents[k] == sessions[i].0;
        assert(after.deferred[deferred.len() + k] == (CoreInputView::ToolResult {
            session_id: sessions[i].0,
            tool_use_id: "__resume_wait_child__"@,
            result: ToolOutcomeView::Success { output: Seq::empty() },
        }));
    }
}

/// What an input means while the tool of a session runs: a request to stop that session stops
/// it, an answer to its question is one, and everything for others waits. Requests to save are
/// done at once only while the user is asked.
pub proof fn law_inputs_while_a_tool_runs(
    input: CoreInputView,
    id: SessionId,
    approving: bool,
)
    ensures
        ({
            let meant = tool_input(input, id, approving);
            let stops = input == (CoreInputView::Cancel { session_id: id }) || (
            input matches CoreInputView::Signal { session_id, signal } && session_id == id && signal
                != SessionSignal::Continue);
            &&& stops <==> meant == ToolInputView::Stop
            &&& input matches CoreInputView::InteractionResponse { session_id, response }
                ==> meant == (if session_id == id {
                ToolInputView::Response(response)
            } else {
                ToolInputView::Later(input)
            })
            &&& input matches CoreInputView::RequestCheckpoint { reply } ==> meant == (
            if approving {
                ToolInputView::Checkpoint { reply }
            } else {
                ToolInputView::Later(input)
            })
            &&& input matches CoreInputView::RequestSessionCheckpoint { session_id, reply }
                ==> meant == (if approving {
                ToolInputView::SessionCheckpoint { session_id, reply }
            } else {
                ToolInputView::Later(input)
            })
            &&& !stops && !(input is InteractionResponse) && !(input is RequestCheckpoint) && !(
            input is RequestSessionCheckpoint) ==> meant == ToolInputView::Later(input)
        }),
{
}

/// Whether an input is an answer, a stop, a signal or a result for a session.
pub open spec fn concerns(input: CoreInputView, id: SessionId) -> bool {
    match input {
        CoreInputView::InteractionResponse { session_id, .. } => session_id == id,
        CoreInputView::Cancel { session_id } => session_id == id,
        CoreInputView::Signal { session_id, .. } => session_id == id,
        CoreInputView::ToolResult { session_id, .. } => session_id == id,
        _ => false,
    }
}

/// Stopping a session drops the answers, stops, signals and results for it that wait, and
/// keeps all other inputs in their order.
pub proof fn law_what_stays_after_a_stop(inputs: Seq<CoreInputView>, id: SessionId)
    ensures
        left_after_stop(inputs, id) == inputs.filter(|i: CoreInputView| !concerns(i, id)),
    decreases inputs.len(),
{
    reveal(Seq::filter);
    if inputs.len() > 0 {
        law_what_stays_after_a_stop(inputs.drop_last(), id);
    } else {
        assert(left_after_stop(inputs, id) =~= inputs.filter(|i: CoreInputView| !concerns(i, id)));
    }
}

/// A session that goes on after a wait has the result at the end of its history, marked as an
/// error exactly where it was one, and waits no more. Nothing else of it changes.
pub proof fn law_session_goes_on_with_the_result(
    session: SessionView,
    result: PendingResultView,
    prepared: Seq<char>,
)
    ensures
        resumed_session(session, result, prepared) == (SessionView {
            suspended_wait: None,
            state: SessionState::Streaming,
            history: session.history.push(
                MessageView {
                    role: Role::Tool,
                    content: MessageContentView::ToolResult {
                        tool_use_id: result.tool_use_id,
                        output: prepared,
                        is_error: result.is_error,
                    },
                },
            ),
            ..session
        }),
{
}

/// A session that is taken out of its wait waits no more, is idle if it waited, and is otherwise
/// as it was.
pub proof fn law_taken_out_of_its_wait(session: SessionView)
    ensures
        unsuspended(session).suspended_wait is None,
        session.state == SessionState::Waiting ==> unsuspended(session).state == SessionState::Idle,
        session.state != SessionState::Waiting ==> unsuspended(session).state == session.state,
        unsuspended(session) == (SessionView {
            suspended_wait: None,
            state: unsuspended(session).state,
            ..session
        }),
{
}

/// Whom sessions wait for: a session waits for another exactly where it waits for the end of
/// that one, or for a message of that one alone.
pub proof fn law_who_waits_for_whom(sessions: SessionList, i: int, other: SessionId)
    requires
        0 <= i < sessions.len(),
        (sessions[i].1.suspended_wait matches Some(SuspendedWaitView::ChildExit { child_id, .. })
            && child_id == other) || (
        sessions[i].1.suspended_wait matches Some(SuspendedWaitView::Mailbox { source, .. })
            && source == crate::channel::MessageSource::Session(other)),
    ensures
        edges_of(sessions).contains((sessions[i].0, other)),
    decreases sessions.len(),
{
    let front = sessions.drop_last();
    let all = edges_of(sessions);
    if i == sessions.len() - 1 {
        assert(all[all.len() - 1] == (sessions[i].0, other));
    } else {
        assert(front[i] == sessions[i]);
        law_who_waits_for_whom(front, i, other);
        let before = edges_of(front);
        let k = choose|k: int| 0 <= k < before.len() && before[k] == (sessions[i].0, other);
        assert(all[k] == before[k]);
    }
}

/// A change to one session changes that one and leaves the others. A session that is not there
/// is not made by it.
pub proof fn law_one_session_is_changed(
    sessions: SessionList,
    id: SessionId,
    change: spec_fn(SessionView) -> SessionView,
    other: SessionId,
)
    ensures
        entry(sessions, id) matches Some(session) ==> entry(
            with_changed(sessions, id, change),
            id,
        ) == Some(change(session)),
        entry(sessions, id) is None ==> with_changed(sessions, id, change) == sessions,
        other != id ==> entry(with_changed(sessions, id, change), other) == entry(sessions, other),
{
    if let Some(session) = entry(sessions, id) {
        lemma_changed_entry(sessions, id, change(session), id);
        lemma_changed_entry(sessions, id, change(session), other);
    }
}

proof fn lemma_changed_entry(
    sessions: SessionList,
    id: SessionId,
    changed: SessionView,
    other: SessionId,
)
    ensures
        entry(crate::table::replaced(sessions, id, changed), other) == (if other == id && entry(
            sessions,
            id,
        ) is Some {
            Some(changed)
        } else {
            entry(sessions, other)
        }),
    decreases sessions.len(),
{
    let after = crate::table::replaced(sessions, id, changed);
    if sessions.len() > 0 {
        if sessions[0].0 == id {
            assert(after.drop_first() =~= sessions.drop_first());
        } else {
            lemma_changed_entry(sessions.drop_first(), id, changed, other);
            assert(after.drop_first() =~= crate::table::replaced(
                sessions.drop_first(),
                id,
                changed,
            ));
            assert(after[0] == sessions[0]);
        }
    }
}

/// Who is answered when a session ends, and who is woken: all who asked for it and no others,
/// in their order.
pub proof fn law_who_is_told_of_an_end(
    waiters: Seq<(SessionId, ReplyId)>,
    waiter: (SessionId, ReplyId),
    sessions: SessionList,
    session: (SessionId, SessionView),
    id: SessionId,
)
    ensures
        crate::session_tree::waiting_for(Seq::empty(), id).len() == 0,
        crate::session_tree::waiting_for(waiters.push(waiter), id) == (if waiter.0 == id {
            crate::session_tree::waiting_for(waiters, id).push(waiter.1)
        } else {
            crate::session_tree::waiting_for(waiters, id)
        }),
        waiting_parents(Seq::empty(), id).len() == 0,
        waiting_parents(sessions.push(session), id) == (if session.1.suspended_wait matches Some(
            SuspendedWaitView::ChildExit { child_id, .. },
        ) && child_id == id {
            waiting_parents(sessions, id).push(session.0)
        } else {
            waiting_parents(sessions, id)
        }),
        edges_of(Seq::empty()).len() == 0,
        session.1.suspended_wait is None || (session.1.suspended_wait matches Some(
            SuspendedWaitView::Mailbox { source, .. },
        ) && source == crate::channel::MessageSource::Any) ==> edges_of(sessions.push(session))
            == edges_of(sessions),
        edges_of(sessions.push(session)).len() <= edges_of(sessions).len() + 1,
        edges_of(sessions.push(session)).take(edges_of(sessions).len() as int) == edges_of(
            sessions,
        ),
{
    assert(waiters.push(waiter).drop_last() =~= waiters);
    assert(sessions.push(session).drop_last() =~= sessions);
    assert(sessions.push(session).last() == session);
    assert(edges_of(sessions.push(session)).take(edges_of(sessions).len() as int) =~= edges_of(
        sessions,
    ));
}

} // verus!
