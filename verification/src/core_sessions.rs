//! The sessions that the core holds itself: who waits for whom, what stops a session, and
//! what happens when a child ends.

use std::collections::VecDeque;

use vstd::prelude::*;
use vstd::string::*;

use crate::actor::{exit_of, PendingResult, PendingResultView};
use crate::channel::{
    outcome_text, CoreOutput, CoreOutputView, InteractionResponse, InteractionResponseView,
    MailboxMessage, MailboxMessageView, ReplyId, ToolOutcome, ToolOutcomeView,
};
use crate::context::{
    interrupted, new_session, PermissionPromptBehavior, Session, SessionMemory, SessionMemoryView,
    SessionView, ToolBelt, ToolBeltView,
};
use crate::core_loop::{
    child_init, handle_of, init_of_child, known_of, ChildDefaults, ChildDefaultsView, CoreInput,
    CoreInputView,
};
use crate::effect::{
    add_effect, send, send_state, state_effect, Effect, EffectView, Reply, ReplyView,
};
use crate::message::{tool_result_message, Message};
use crate::prompt::{ProjectInstructions, ProjectInstructionsView};
use crate::session::{
    interrupts, ExitStatus, ExitStatusView, SessionId, SessionSignal, SessionState,
};
use crate::session_tree::{waiting_for, SessionTree, SessionTreeView};
use crate::table::{entry, lemma_replaced, position_of, put, replaced, take_out, updated, without};
use crate::turn::{TurnOutcome, TurnOutcomeView};
use crate::wait::{
    admits, mailbox_matches_source, reaches, wait_closes_cycle, SuspendedWait, SuspendedWaitView,
};

verus! {

broadcast use vstd::seq::group_seq_axioms;

/// Sessions by their identifiers.
pub type SessionList = Seq<(SessionId, SessionView)>;

/// What an input means to a session whose tool runs.
#[derive(Debug)]
pub enum ToolInput {
    /// An answer of the user.
    Response(InteractionResponse),
    /// The session is stopped.
    Stop,
    /// What has to be saved is asked for.
    Checkpoint { reply: ReplyId },
    /// What has to be saved of one session is asked for.
    SessionCheckpoint { session_id: SessionId, reply: ReplyId },
    /// It has to wait.
    Later(CoreInput),
}

/// The model of [`ToolInput`].
#[verifier::ext_equal]
pub enum ToolInputView {
    Response(InteractionResponseView),
    Stop,
    Checkpoint { reply: ReplyId },
    SessionCheckpoint { session_id: SessionId, reply: ReplyId },
    Later(CoreInputView),
}

impl DeepView for ToolInput {
    type V = ToolInputView;

    open spec fn deep_view(&self) -> ToolInputView {
        match *self {
            ToolInput::Response(value) => ToolInputView::Response(value.deep_view()),
            ToolInput::Stop => ToolInputView::Stop,
            ToolInput::Checkpoint { reply } => ToolInputView::Checkpoint { reply },
            ToolInput::SessionCheckpoint { session_id, reply } => ToolInputView::SessionCheckpoint {
                session_id,
                reply,
            },
            ToolInput::Later(value) => ToolInputView::Later(value.deep_view()),
        }
    }
}

/// Whom a session waits for.
pub open spec fn waits_on(session: SessionView) -> Option<SessionId> {
    match session.suspended_wait {
        Some(wait) => wait.depends_on(),
        None => None,
    }
}

/// The waits between sessions.
pub open spec fn edges_of(sessions: SessionList) -> Seq<(SessionId, SessionId)>
    decreases sessions.len(),
{
    if sessions.len() == 0 {
        Seq::empty()
    } else {
        match waits_on(sessions.last().1) {
            Some(other) => edges_of(sessions.drop_last()).push((sessions.last().0, other)),
            None => edges_of(sessions.drop_last()),
        }
    }
}

/// When the wait of a session is given up.
pub open spec fn deadline_of(session: SessionView) -> Option<u128> {
    match session.suspended_wait {
        Some(wait) => wait.timeout_at(),
        None => None,
    }
}

/// The sessions whose waits are given up, and why.
pub open spec fn expired(sessions: SessionList, now_ms: u128) -> Seq<(SessionId, Seq<char>)>
    decreases sessions.len(),
{
    if sessions.len() == 0 {
        Seq::empty()
    } else {
        let front = expired(sessions.drop_last(), now_ms);
        let session = sessions.last().1;
        match deadline_of(session) {
            Some(deadline) => if deadline <= now_ms {
                front.push((sessions.last().0, session.suspended_wait->0.timeout_message()))
            } else {
                front
            },
            None => front,
        }
    }
}

/// Whether an input is one for a session that a stop of the session makes void.
pub open spec fn void_after_stop(input: CoreInputView, id: SessionId) -> bool {
    match input {
        CoreInputView::InteractionResponse { session_id, .. } => session_id == id,
        CoreInputView::Cancel { session_id } => session_id == id,
        CoreInputView::Signal { session_id, .. } => session_id == id,
        CoreInputView::ToolResult { session_id, .. } => session_id == id,
        _ => false,
    }
}

/// The inputs that a stop of a session leaves.
pub open spec fn left_after_stop(inputs: Seq<CoreInputView>, id: SessionId) -> Seq<CoreInputView>
    decreases inputs.len(),
{
    if inputs.len() == 0 {
        Seq::empty()
    } else {
        let front = left_after_stop(inputs.drop_last(), id);
        if void_after_stop(inputs.last(), id) {
            front
        } else {
            front.push(inputs.last())
        }
    }
}

/// Sessions of which one has changed.
pub open spec fn with_changed(
    sessions: SessionList,
    id: SessionId,
    change: spec_fn(SessionView) -> SessionView,
) -> SessionList {
    match entry(sessions, id) {
        Some(session) => replaced(sessions, id, change(session)),
        None => sessions,
    }
}

/// A session that waits no more.
pub open spec fn unsuspended(session: SessionView) -> SessionView {
    SessionView {
        suspended_wait: None,
        state: if session.state == SessionState::Waiting {
            SessionState::Idle
        } else {
            session.state
        },
        ..session
    }
}

/// Whether an input stops a session.
pub open spec fn stops_session(input: CoreInputView, id: SessionId) -> bool {
    match input {
        CoreInputView::Cancel { session_id } => session_id == id,
        CoreInputView::Signal { session_id, signal } => session_id == id && interrupts(signal),
        _ => false,
    }
}

/// What an input means to a session whose tool runs. Only while the user is asked for
/// permission are requests for what has to be saved answered at once.
pub open spec fn tool_input(input: CoreInputView, id: SessionId, approving: bool) -> ToolInputView {
    if stops_session(input, id) {
        ToolInputView::Stop
    } else {
        match input {
            CoreInputView::InteractionResponse { session_id, response } => if session_id == id {
                ToolInputView::Response(response)
            } else {
                ToolInputView::Later(input)
            },
            CoreInputView::RequestCheckpoint { reply } => if approving {
                ToolInputView::Checkpoint { reply }
            } else {
                ToolInputView::Later(input)
            },
            CoreInputView::RequestSessionCheckpoint { session_id, reply } => if approving {
                ToolInputView::SessionCheckpoint { session_id, reply }
            } else {
                ToolInputView::Later(input)
            },
            _ => ToolInputView::Later(input),
        }
    }
}

/// The input that wakes a session.
pub open spec fn wake_input(id: SessionId, tool_use_id: Seq<char>) -> CoreInputView {
    CoreInputView::ToolResult {
        session_id: id,
        tool_use_id,
        result: ToolOutcomeView::Success { output: Seq::empty() },
    }
}

/// The sessions that wait for the end of a child.
pub open spec fn waiting_parents(sessions: SessionList, child: SessionId) -> Seq<SessionId>
    decreases sessions.len(),
{
    if sessions.len() == 0 {
        Seq::empty()
    } else {
        let front = waiting_parents(sessions.drop_last(), child);
        if sessions.last().1.suspended_wait matches Some(
            SuspendedWaitView::ChildExit { child_id, .. },
        ) && child_id == child {
            front.push(sessions.last().0)
        } else {
            front
        }
    }
}

/// The inputs that wake the sessions that wait for the end of a child.
pub open spec fn wake_inputs(parents: Seq<SessionId>) -> Seq<CoreInputView> {
    parents.map_values(|p: SessionId| wake_input(p, "__resume_wait_child__"@))
}

/// Answers that tell how a session ended.
pub open spec fn exit_effects(replies: Seq<ReplyId>, status: ExitStatusView) -> Seq<EffectView> {
    replies.map_values(
        |r: ReplyId| EffectView::Reply { to: r, reply: ReplyView::Exit(Some(status)) },
    )
}

/// The core after the turn of a child.
#[verifier::ext_equal]
pub struct ChildEnd {
    pub sessions: SessionList,
    pub tree: SessionTreeView,
    pub deferred: Seq<CoreInputView>,
    pub effects: Seq<EffectView>,
}

/// The turn of a child is over. It ends with it, unless it is suspended: its end is noted,
/// its parent and those who wait for it are told, and it is taken out.
pub open spec fn child_over(
    sessions: SessionList,
    tree: SessionTreeView,
    deferred: Seq<CoreInputView>,
    id: SessionId,
    outcome: TurnOutcomeView,
) -> ChildEnd {
    match entry(sessions, id) {
        None => ChildEnd { sessions, tree, deferred, effects: Seq::empty() },
        Some(session) => {
            let destroyed = replaced(
                sessions,
                id,
                SessionView { state: SessionState::Destroyed, ..session },
            );
            match exit_of(session, outcome) {
                None => ChildEnd {
                    sessions: destroyed,
                    tree,
                    deferred,
                    effects: Seq::empty(),
                },
                Some(status) => ChildEnd {
                    sessions: without(destroyed, id),
                    tree: SessionTreeView {
                        exits: updated(tree.exits, id, status),
                        waiters: without(tree.waiters, id),
                        waits: without(tree.waits, id),
                        ..tree
                    },
                    deferred: deferred + wake_inputs(waiting_parents(destroyed, id)),
                    effects: exit_effects(waiting_for(tree.waiters, id), status) + seq![
                        state_effect(id, SessionState::Destroyed),
                    ] + (match entry(tree.parents, id) {
                        Some(parent_id) => seq![
                            EffectView::Output(
                                CoreOutputView::ChildExited { parent_id, child_id: id, status },
                            ),
                        ],
                        None => Seq::empty(),
                    }) + seq![EffectView::Checkpoint],
                },
            }
        },
    }
}

/// The core after a session has made another.
#[verifier::ext_equal]
pub struct ChildStart {
    pub sessions: SessionList,
    pub tree: SessionTreeView,
    pub deferred: Seq<CoreInputView>,
    pub effects: Seq<EffectView>,
}

/// A session makes another, which is given its task as soon as the core takes the next
/// input.
pub open spec fn child_begun(
    sessions: SessionList,
    tree: SessionTreeView,
    deferred: Seq<CoreInputView>,
    parent_id: SessionId,
    child: SessionView,
    task: Seq<char>,
    turn_id: Seq<char>,
) -> ChildStart {
    ChildStart {
        sessions: updated(sessions, child.id, child),
        tree: SessionTreeView { parents: updated(tree.parents, child.id, parent_id), ..tree },
        deferred: deferred.push(
            CoreInputView::UserMessage { session_id: child.id, content: task, turn_id },
        ),
        effects: seq![
            EffectView::Output(CoreOutputView::ChildSpawned { parent_id, child_id: child.id }),
            state_effect(child.id, SessionState::Idle),
            EffectView::Checkpoint,
        ],
    }
}

/// The session that another makes.
pub open spec fn child_of(
    sessions: SessionList,
    parent_id: SessionId,
    child_id: SessionId,
    defaults: ChildDefaultsView,
    system_prompt: Option<Seq<char>>,
    prompt_behavior: PermissionPromptBehavior,
    belt: ToolBeltView,
    instructions: Option<ProjectInstructionsView>,
    memory: SessionMemoryView,
    created_at: Seq<char>,
) -> SessionView {
    let parent = match entry(sessions, parent_id) {
        Some(session) => Some(handle_of(session)),
        None => None,
    };
    new_session(
        child_id,
        child_init(parent, defaults, system_prompt, prompt_behavior),
        belt,
        instructions,
        memory,
        created_at,
    )
}

/// A session that goes on with the result that its wait ended with.
pub open spec fn resumed_session(
    session: SessionView,
    result: PendingResultView,
    prepared: Seq<char>,
) -> SessionView {
    SessionView {
        suspended_wait: None,
        history: session.history.push(
            tool_result_message(result.tool_use_id, prepared, result.is_error),
        ),
        state: SessionState::Streaming,
        ..session
    }
}

/// A stop of a session leaves no input behind that would answer or stop it once more, and
/// drops no other input.
pub proof fn law_stop_voids_inputs(inputs: Seq<CoreInputView>, id: SessionId, input: CoreInputView)
    ensures
        left_after_stop(inputs, id).contains(input) <==> inputs.contains(input)
            && !void_after_stop(input, id),
    decreases inputs.len(),
{
    if inputs.len() > 0 {
        let front = inputs.drop_last();
        let kept = left_after_stop(front, id);
        law_stop_voids_inputs(front, id, input);
        assert(front.push(inputs.last()) =~= inputs);
        assert(inputs.contains(input) <==> front.contains(input) || input == inputs.last()) by {
            if front.contains(input) {
                let i = choose|i: int| 0 <= i < front.len() && front[i] == input;
                assert(inputs[i] == input);
            }
            if inputs.contains(input) {
                let i = choose|i: int| 0 <= i < inputs.len() && inputs[i] == input;
                if i < front.len() {
                    assert(front[i] == input);
                }
            }
            if input == inputs.last() {
                assert(inputs[inputs.len() - 1] == input);
            }
        }
        if !void_after_stop(inputs.last(), id) {
            let all = kept.push(inputs.last());
            assert(all.contains(input) <==> kept.contains(input) || input == inputs.last()) by {
                if kept.contains(input) {
                    let i = choose|i: int| 0 <= i < kept.len() && kept[i] == input;
                    assert(all[i] == input);
                }
                if input == inputs.last() {
                    assert(all[all.len() - 1] == input);
                }
                if all.contains(input) {
                    let i = choose|i: int| 0 <= i < all.len() && all[i] == input;
                    if i < kept.len() {
                        assert(kept[i] == input);
                    }
                }
            }
        }
    }
}

/// After the turn of a child that is not suspended, the child is no longer there, its end is
/// on record, and it waits for nobody.
pub proof fn law_child_is_gone(
    sessions: SessionList,
    tree: SessionTreeView,
    deferred: Seq<CoreInputView>,
    id: SessionId,
    outcome: TurnOutcomeView,
)
    requires
        entry(sessions, id) is Some,
        !(outcome is Suspended),
    ensures
        entry(child_over(sessions, tree, deferred, id, outcome).sessions, id) is None,
        entry(child_over(sessions, tree, deferred, id, outcome).tree.exits, id) == exit_of(
            entry(sessions, id)->0,
            outcome,
        ),
        entry(child_over(sessions, tree, deferred, id, outcome).tree.waits, id) is None,
        deferred.is_prefix_of(child_over(sessions, tree, deferred, id, outcome).deferred),
{
    let session = entry(sessions, id)->0;
    let status = exit_of(session, outcome)->0;
    let destroyed = replaced(
        sessions,
        id,
        SessionView { state: SessionState::Destroyed, ..session },
    );
    crate::table::law_entries(destroyed, id, session, id);
    crate::table::law_entries(tree.exits, id, status, id);
    crate::table::law_entries(tree.waits, id, id, id);
    let after = deferred + wake_inputs(waiting_parents(destroyed, id));
    assert(deferred =~= after.subrange(0, deferred.len() as int));
}

/// Whether a signal stops a session.
fn is_stop(signal: SessionSignal) -> (r: bool)
    ensures
        r == interrupts(signal),
{
    match signal {
        SessionSignal::Stop | SessionSignal::Term | SessionSignal::Kill => true,
        SessionSignal::Continue => false,
    }
}

proof fn lemma_changed_in_place(
    before: Vec<(SessionId, Session)>,
    after: Vec<(SessionId, Session)>,
    id: SessionId,
    i: int,
)
    requires
        0 <= i < before@.len(),
        before@[i].0 == id,
        forall|j: int| 0 <= j < i ==> (#[trigger] before@[j]).0 != id,
        after@.len() == before@.len(),
        after@[i].0 == id,
        forall|j: int| 0 <= j < before@.len() && j != i ==> after@[j] == before@[j],
    ensures
        after.deep_view() == replaced(before.deep_view(), id, after@[i].1.deep_view()),
{
    let all = before.deep_view();
    assert forall|j: int| 0 <= j < i implies (#[trigger] all[j]).0 != id by {
        assert(all[j].0 == before@[j].0);
    }
    lemma_replaced(all, id, after@[i].1.deep_view(), i);
    assert(after.deep_view() =~= all.update(i, (id, after@[i].1.deep_view())));
}

/// Whom a session waits for.
pub fn waiting_on_session(session: &Session) -> (r: Option<SessionId>)
    ensures
        r == waits_on(session.deep_view()),
{
    match &session.suspended_wait {
        Some(wait) => wait.depends_on(),
        None => None,
    }
}

/// The waits between sessions.
pub fn wait_edges(sessions: &Vec<(SessionId, Session)>) -> (r: Vec<(SessionId, SessionId)>)
    ensures
        r@ == edges_of(sessions.deep_view()),
{
    let ghost all = sessions.deep_view();
    let mut r: Vec<(SessionId, SessionId)> = Vec::new();
    let mut i: usize = 0;
    assert(r@ =~= edges_of(all.take(0)));
    while i < sessions.len()
        invariant
            i <= sessions@.len(),
            all == sessions.deep_view(),
            r@ == edges_of(all.take(i as int)),
        decreases sessions@.len() - i,
    {
        assert(all.take(i + 1).drop_last() =~= all.take(i as int));
        assert(all.take(i + 1).last() == (sessions@[i as int].0, sessions@[
            i as int
        ].1.deep_view()));
        if let Some(other) = waiting_on_session(&sessions[i].1) {
            r.push((sessions[i].0, other));
        }
        i = i + 1;
    }
    assert(all.take(i as int) =~= all);
    r
}

/// Whether a wait would close a cycle of waits between sessions.
pub fn waiting_would_cycle(
    sessions: &Vec<(SessionId, Session)>,
    waiter: SessionId,
    dependency: SessionId,
) -> (r: bool)
    ensures
        r == reaches(edges_of(sessions.deep_view()), dependency, waiter),
{
    let edges = wait_edges(sessions);
    wait_closes_cycle(&edges, waiter, dependency)
}

/// Whether a wait would close a cycle of waits between sessions, or in the tree.
pub fn waiting_would_cycle_including_session_tree(
    sessions: &Vec<(SessionId, Session)>,
    tree: &SessionTree,
    waiter: SessionId,
    dependency: SessionId,
) -> (r: bool)
    ensures
        r == (reaches(edges_of(sessions.deep_view()), dependency, waiter) || reaches(
            tree.deep_view().waits,
            dependency,
            waiter,
        )),
{
    waiting_would_cycle(sessions, waiter, dependency) || tree.wait_would_cycle(waiter, dependency)
}

/// The deadline that comes first.
pub fn next_wait_deadline(sessions: &Vec<(SessionId, Session)>) -> (r: Option<u128>)
    ensures
        match r {
            None => forall|i: int|
                0 <= i < sessions@.len() ==> deadline_of(
                    (#[trigger] sessions@[i]).1.deep_view(),
                ) is None,
            Some(first) => (exists|i: int|
                0 <= i < sessions@.len() && deadline_of((#[trigger] sessions@[i]).1.deep_view())
                    == Some(first)) && forall|i: int|
                0 <= i < sessions@.len() ==> (deadline_of(
                    (#[trigger] sessions@[i]).1.deep_view(),
                ) matches Some(other) ==> first <= other),
        },
{
    let mut r: Option<u128> = None;
    let mut i: usize = 0;
    while i < sessions.len()
        invariant
            i <= sessions@.len(),
            match r {
                None => forall|k: int|
                    0 <= k < i ==> deadline_of((#[trigger] sessions@[k]).1.deep_view()) is None,
                Some(first) => (exists|k: int|
                    0 <= k < i && deadline_of((#[trigger] sessions@[k]).1.deep_view()) == Some(
                        first,
                    )) && forall|k: int|
                    0 <= k < i ==> (deadline_of(
                        (#[trigger] sessions@[k]).1.deep_view(),
                    ) matches Some(other) ==> first <= other),
            },
        decreases sessions@.len() - i,
    {
        let deadline = match &sessions[i].1.suspended_wait {
            Some(wait) => wait.timeout_at(),
            None => None,
        };
        assert(deadline == deadline_of(sessions@[i as int].1.deep_view()));
        if let Some(new) = deadline {
            match r {
                Some(first) => {
                    if new < first {
                        r = Some(new);
                    }
                },
                None => {
                    r = Some(new);
                },
            }
        }
        i = i + 1;
    }
    r
}

/// The sessions whose waits are given up, and why.
pub fn expired_waits(sessions: &Vec<(SessionId, Session)>, now_ms: u128) -> (r: Vec<
    (SessionId, String),
>)
    ensures
        r.deep_view() == expired(sessions.deep_view(), now_ms),
{
    let ghost all = sessions.deep_view();
    let mut r: Vec<(SessionId, String)> = Vec::new();
    let mut i: usize = 0;
    assert(r.deep_view() =~= expired(all.take(0), now_ms));
    while i < sessions.len()
        invariant
            i <= sessions@.len(),
            all == sessions.deep_view(),
            r.deep_view() == expired(all.take(i as int), now_ms),
        decreases sessions@.len() - i,
    {
        assert(all.take(i + 1).drop_last() =~= all.take(i as int));
        assert(all.take(i + 1).last() == (sessions@[i as int].0, sessions@[
            i as int
        ].1.deep_view()));
        if let Some(wait) = &sessions[i].1.suspended_wait {
            if let Some(deadline) = wait.timeout_at() {
                if deadline <= now_ms {
                    let ghost before = r.deep_view();
                    r.push((sessions[i].0, wait.timeout_message().to_owned()));
                    assert(r.deep_view() =~= before.push(
                        (all[i as int].0, wait.deep_view().timeout_message()),
                    ));
                }
            }
        }
        i = i + 1;
    }
    assert(all.take(i as int) =~= all);
    r
}

/// Whether an input is one for a session that a stop of the session makes void.
fn is_void_after_stop(input: &CoreInput, id: SessionId) -> (r: bool)
    ensures
        r == void_after_stop(input.deep_view(), id),
{
    match input {
        CoreInput::InteractionResponse { session_id, .. } => *session_id == id,
        CoreInput::Cancel { session_id } => *session_id == id,
        CoreInput::Signal { session_id, .. } => *session_id == id,
        CoreInput::ToolResult { session_id, .. } => *session_id == id,
        _ => false,
    }
}

/// Drops the inputs that a stop of a session makes void.
fn drop_void_inputs(deferred: &mut VecDeque<CoreInput>, id: SessionId)
    ensures
        final(deferred).deep_view() == left_after_stop(old(deferred).deep_view(), id),
{
    let ghost all = deferred.deep_view();
    let count = deferred.len();
    let mut done: usize = 0;
    assert(deferred.deep_view() =~= all.skip(0) + left_after_stop(all.take(0), id));
    while done < count
        invariant
            done <= count,
            count == all.len(),
            deferred.deep_view() == all.skip(done as int) + left_after_stop(
                all.take(done as int),
                id,
            ),
        decreases count - done,
    {
        let ghost before = deferred.deep_view();
        let ghost kept = left_after_stop(all.take(done as int), id);
        assert(before[0] == all[done as int]);
        assert(all.take(done + 1).drop_last() =~= all.take(done as int));
        if let Some(input) = deferred.pop_front() {
            assert(deferred.deep_view() =~= before.drop_first());
            assert(before.drop_first() =~= all.skip(done + 1) + kept);
            if !is_void_after_stop(&input, id) {
                let ghost rest = deferred.deep_view();
                deferred.push_back(input);
                assert(deferred.deep_view() =~= rest.push(input.deep_view()));
                assert(rest.push(all[done as int]) =~= all.skip(done + 1) + kept.push(
                    all[done as int],
                ));
            }
        }
        done = done + 1;
    }
    assert(all.skip(done as int) =~= Seq::empty());
    assert(all.take(done as int) =~= all);
    assert(deferred.deep_view() =~= left_after_stop(all, id));
}

/// Stops a session. Returns whether there is a tool that has to be told.
pub fn interrupt_session(
    sessions: &mut Vec<(SessionId, Session)>,
    deferred: &mut VecDeque<CoreInput>,
    id: SessionId,
) -> (tell_tool: bool)
    ensures
        final(sessions).deep_view() == with_changed(
            old(sessions).deep_view(),
            id,
            |s: SessionView| interrupted(s),
        ),
        final(deferred).deep_view() == left_after_stop(old(deferred).deep_view(), id),
        tell_tool == (entry(old(sessions).deep_view(), id) matches Some(session)
            && session.cancel_armed),
{
    let mut tell_tool = false;
    let ghost before = *sessions;
    if let Some(i) = position_of(sessions, id) {
        let session = &mut sessions[i].1;
        tell_tool = session.interrupt();
        proof {
            lemma_changed_in_place(before, *sessions, id, i as int);
        }
    }
    drop_void_inputs(deferred, id);
    tell_tool
}

/// Ends the wait of a session.
pub fn clear_suspended_wait(
    sessions: &mut Vec<(SessionId, Session)>,
    tree: &mut SessionTree,
    id: SessionId,
)
    ensures
        final(sessions).deep_view() == with_changed(
            old(sessions).deep_view(),
            id,
            |s: SessionView| unsuspended(s),
        ),
        final(tree).deep_view() == (SessionTreeView {
            waits: without(old(tree).deep_view().waits, id),
            ..old(tree).deep_view()
        }),
{
    tree.clear_active_wait(id);
    let ghost before = *sessions;
    if let Some(i) = position_of(sessions, id) {
        let session = &mut sessions[i].1;
        session.suspended_wait = None;
        if session.state == SessionState::Waiting {
            session.state = SessionState::Idle;
        }
        proof {
            lemma_changed_in_place(before, *sessions, id, i as int);
        }
    }
}

/// Takes an input while the model is asked. One that stops the session does so, and every
/// other has to wait. Returns whether the session was stopped, and whether there is a tool
/// that has to be told.
pub fn handle_session_control_input(
    sessions: &mut Vec<(SessionId, Session)>,
    tree: &mut SessionTree,
    deferred: &mut VecDeque<CoreInput>,
    id: SessionId,
    input: CoreInput,
) -> (r: (bool, bool))
    ensures
        r.0 == stops_session(input.deep_view(), id),
        r.1 == (r.0 && (entry(old(sessions).deep_view(), id) matches Some(session)
            && session.cancel_armed)),
        final(sessions).deep_view() == (if r.0 {
            with_changed(
                with_changed(
                    old(sessions).deep_view(),
                    id,
                    |s: SessionView| unsuspended(s),
                ),
                id,
                |s: SessionView| interrupted(s),
            )
        } else {
            old(sessions).deep_view()
        }),
        final(tree).deep_view() == (if r.0 {
            SessionTreeView {
                waits: without(old(tree).deep_view().waits, id),
                ..old(tree).deep_view()
            }
        } else {
            old(tree).deep_view()
        }),
        final(deferred).deep_view() == (if r.0 {
            left_after_stop(old(deferred).deep_view(), id)
        } else {
            old(deferred).deep_view().push(input.deep_view())
        }),
{
    let stops = match &input {
        CoreInput::Cancel { session_id } => *session_id == id,
        CoreInput::Signal { session_id, signal } => *session_id == id && is_stop(*signal),
        _ => false,
    };
    if stops {
        let ghost start = sessions.deep_view();
        clear_suspended_wait(sessions, tree, id);
        proof {
            lemma_replaced_entry(start, id);
        }
        let tell_tool = interrupt_session(sessions, deferred, id);
        (true, tell_tool)
    } else {
        let ghost before = deferred.deep_view();
        deferred.push_back(input);
        assert(deferred.deep_view() =~= before.push(input.deep_view()));
        (false, false)
    }
}

proof fn lemma_replaced_entry(sessions: SessionList, id: SessionId)
    ensures
        ({
            let after = with_changed(sessions, id, |s: SessionView| unsuspended(s));
            match entry(sessions, id) {
                Some(session) => entry(after, id) == Some(unsuspended(session)),
                None => entry(after, id) is None,
            }
        }),
    decreases sessions.len(),
{
    if let Some(session) = entry(sessions, id) {
        lemma_entry_of_replaced(sessions, id, unsuspended(session));
    }
}

proof fn lemma_entry_of_replaced(sessions: SessionList, id: SessionId, value: SessionView)
    requires
        entry(sessions, id) is Some,
    ensures
        entry(replaced(sessions, id, value), id) == Some(value),
    decreases sessions.len(),
{
    let after = replaced(sessions, id, value);
    if sessions[0].0 != id {
        lemma_entry_of_replaced(sessions.drop_first(), id, value);
        assert(after[0] == sessions[0]);
        assert(after.drop_first() =~= replaced(sessions.drop_first(), id, value));
    }
}

/// What an input means to a session whose tool runs.
pub fn classify_tool_input(input: CoreInput, id: SessionId, approving: bool) -> (r: ToolInput)
    ensures
        r.deep_view() == tool_input(input.deep_view(), id, approving),
{
    match input {
        CoreInput::Cancel { session_id } => {
            if session_id == id {
                ToolInput::Stop
            } else {
                ToolInput::Later(CoreInput::Cancel { session_id })
            }
        },
        CoreInput::Signal { session_id, signal } => {
            if session_id == id && is_stop(signal) {
                ToolInput::Stop
            } else {
                ToolInput::Later(CoreInput::Signal { session_id, signal })
            }
        },
        CoreInput::InteractionResponse { session_id, response } => {
            if session_id == id {
                ToolInput::Response(response)
            } else {
                ToolInput::Later(CoreInput::InteractionResponse { session_id, response })
            }
        },
        CoreInput::RequestCheckpoint { reply } => {
            if approving {
                ToolInput::Checkpoint { reply }
            } else {
                ToolInput::Later(CoreInput::RequestCheckpoint { reply })
            }
        },
        CoreInput::RequestSessionCheckpoint { session_id, reply } => {
            if approving {
                ToolInput::SessionCheckpoint { session_id, reply }
            } else {
                ToolInput::Later(CoreInput::RequestSessionCheckpoint { session_id, reply })
            }
        },
        other => ToolInput::Later(other),
    }
}

/// Puts a message into the mailbox of a session, and wakes the session if it waits for it.
/// Returns what is sent, and whether a session is to be woken. Nothing happens if the
/// session is not there.
pub fn handle_send_message_input(
    sessions: &mut Vec<(SessionId, Session)>,
    deferred: &mut VecDeque<CoreInput>,
    from: SessionId,
    to: SessionId,
    content: String,
) -> (r: (Vec<CoreOutput>, bool))
    ensures
        ({
            let message = MailboxMessageView { from, content: content@ };
            let target = entry(old(sessions).deep_view(), to);
            let wakes = target matches Some(session) && (session.suspended_wait matches Some(
                SuspendedWaitView::Mailbox { source, .. },
            ) && admits(source, message));
            &&& final(sessions).deep_view() == with_changed(
                old(sessions).deep_view(),
                to,
                |s: SessionView| SessionView { mailbox: s.mailbox.push(message), ..s },
            )
            &&& final(deferred).deep_view() == (if wakes {
                old(deferred).deep_view().push(wake_input(to, "__resume_recv_message__"@))
            } else {
                old(deferred).deep_view()
            })
            &&& r.0.deep_view() == (if target is Some {
                seq![
                    CoreOutputView::MessageReceived { session_id: to, from, content: content@ },
                ]
            } else {
                Seq::empty()
            })
            &&& r.1 == wakes
        }),
{
    let mut outputs: Vec<CoreOutput> = Vec::new();
    assert(outputs.deep_view() =~= Seq::empty());
    let ghost before = *sessions;
    let i = match position_of(sessions, to) {
        Some(i) => i,
        None => {
            return (outputs, false);
        },
    };
    let message = MailboxMessage { from, content: content.clone() };
    let session = &mut sessions[i].1;
    let wakes = match &session.suspended_wait {
        Some(SuspendedWait::Mailbox { source, .. }) => mailbox_matches_source(&message, source),
        _ => false,
    };
    let ghost mailbox = session.mailbox.deep_view();
    session.mailbox.push_back(message);
    assert(session.mailbox.deep_view() =~= mailbox.push(message.deep_view()));
    proof {
        lemma_changed_in_place(before, *sessions, to, i as int);
    }
    if wakes {
        let ghost waiting = deferred.deep_view();
        let wake = CoreInput::ToolResult {
            session_id: to,
            tool_use_id: "__resume_recv_message__".to_owned(),
            result: ToolOutcome::Success { output: String::new() },
        };
        assert(wake.deep_view()->ToolResult_result->output =~= Seq::<char>::empty());
        deferred.push_back(wake);
        assert(deferred.deep_view() =~= waiting.push(
            wake_input(to, "__resume_recv_message__"@),
        ));
    }
    outputs.push(CoreOutput::MessageReceived { session_id: to, from, content });
    assert(outputs.deep_view() =~= seq![
        CoreOutputView::MessageReceived { session_id: to, from, content: content@ },
    ]);
    (outputs, wakes)
}

/// The sessions that wait for the end of a child.
fn parents_waiting_for(sessions: &Vec<(SessionId, Session)>, child: SessionId) -> (r: Vec<
    SessionId,
>)
    ensures
        r@ == waiting_parents(sessions.deep_view(), child),
{
    let ghost all = sessions.deep_view();
    let mut r: Vec<SessionId> = Vec::new();
    let mut i: usize = 0;
    assert(r@ =~= waiting_parents(all.take(0), child));
    while i < sessions.len()
        invariant
            i <= sessions@.len(),
            all == sessions.deep_view(),
            r@ == waiting_parents(all.take(i as int), child),
        decreases sessions@.len() - i,
    {
        assert(all.take(i + 1).drop_last() =~= all.take(i as int));
        assert(all.take(i + 1).last() == (sessions@[i as int].0, sessions@[
            i as int
        ].1.deep_view()));
        if let Some(SuspendedWait::ChildExit { child_id, .. }) = &sessions[i].1.suspended_wait {
            if *child_id == child {
                r.push(sessions[i].0);
            }
        }
        i = i + 1;
    }
    assert(all.take(i as int) =~= all);
    r
}

/// Adds the inputs that wake the sessions that wait for the end of a child.
fn wake_parents(deferred: &mut VecDeque<CoreInput>, parents: &Vec<SessionId>)
    ensures
        final(deferred).deep_view() == old(deferred).deep_view() + wake_inputs(parents@),
{
    let ghost start = deferred.deep_view();
    let ghost wanted = wake_inputs(parents@);
    let mut i: usize = 0;
    assert(start + wanted.take(0) =~= start);
    while i < parents.len()
        invariant
            i <= parents@.len(),
            wanted == wake_inputs(parents@),
            deferred.deep_view() == start + wanted.take(i as int),
        decreases parents@.len() - i,
    {
        let ghost before = deferred.deep_view();
        let wake = CoreInput::ToolResult {
            session_id: parents[i],
            tool_use_id: "__resume_wait_child__".to_owned(),
            result: ToolOutcome::Success { output: String::new() },
        };
        assert(wake.deep_view()->ToolResult_result->output =~= Seq::<char>::empty());
        deferred.push_back(wake);
        assert(deferred.deep_view() =~= before.push(wanted[i as int]));
        assert(deferred.deep_view() =~= start + wanted.take(i + 1));
        i = i + 1;
    }
    assert(wanted.take(i as int) =~= wanted);
}

/// Adds the answers that tell how a session ended.
fn tell_exit(effects: &mut Vec<Effect>, told: &Vec<ReplyId>, status: &ExitStatus)
    ensures
        final(effects).deep_view() == old(effects).deep_view() + exit_effects(
            told@,
            status.deep_view(),
        ),
{
    let ghost start = effects.deep_view();
    let ghost wanted = exit_effects(told@, status.deep_view());
    let mut i: usize = 0;
    assert(start + wanted.take(0) =~= start);
    while i < told.len()
        invariant
            i <= told@.len(),
            wanted == exit_effects(told@, status.deep_view()),
            effects.deep_view() == start + wanted.take(i as int),
        decreases told@.len() - i,
    {
        let ghost before = effects.deep_view();
        let answer = Some(status.clone());
        assert(answer.deep_view() == Some(status.deep_view()));
        add_effect(effects, Effect::Reply { to: told[i], reply: Reply::Exit(answer) });
        assert(effects.deep_view() =~= before.push(wanted[i as int]));
        assert(effects.deep_view() =~= start + wanted.take(i + 1));
        i = i + 1;
    }
    assert(wanted.take(i as int) =~= wanted);
}

/// How a child ended whose turn is over, if it has.
fn exit_status_of(session: &Session, outcome: TurnOutcome) -> (r: Option<ExitStatus>)
    ensures
        r.deep_view() == exit_of(session.deep_view(), outcome.deep_view()),
{
    match outcome {
        TurnOutcome::Completed(answer) => {
            let output = match answer {
                Some(text) => text,
                None => match session.session_output() {
                    Some(text) => text,
                    None => {
                        let nothing = String::new();
                        assert(nothing@ =~= Seq::empty());
                        nothing
                    },
                },
            };
            Some(ExitStatus::Success { output })
        },
        TurnOutcome::Failed(error) => Some(ExitStatus::Failed { error }),
        TurnOutcome::Cancelled => Some(ExitStatus::Cancelled),
        TurnOutcome::Suspended => None,
    }
}

/// Ends a child whose turn is over.
pub fn finalize_child_session(
    sessions: &mut Vec<(SessionId, Session)>,
    tree: &mut SessionTree,
    deferred: &mut VecDeque<CoreInput>,
    id: SessionId,
    turn_outcome: TurnOutcome,
) -> (effects: Vec<Effect>)
    ensures
        ({
            let after = child_over(
                old(sessions).deep_view(),
                old(tree).deep_view(),
                old(deferred).deep_view(),
                id,
                turn_outcome.deep_view(),
            );
            &&& final(sessions).deep_view() == after.sessions
            &&& final(tree).deep_view() == after.tree
            &&& final(deferred).deep_view() == after.deferred
            &&& effects.deep_view() == after.effects
        }),
{
    let ghost wanted = child_over(
        sessions.deep_view(),
        tree.deep_view(),
        deferred.deep_view(),
        id,
        turn_outcome.deep_view(),
    );
    let mut effects: Vec<Effect> = Vec::new();
    assert(effects.deep_view() =~= Seq::empty());
    let ghost before = *sessions;
    let i = match position_of(sessions, id) {
        Some(i) => i,
        None => {
            return effects;
        },
    };
    let ended = exit_status_of(&sessions[i].1, turn_outcome);
    let session = &mut sessions[i].1;
    session.state = SessionState::Destroyed;
    proof {
        lemma_changed_in_place(before, *sessions, id, i as int);
    }
    let status = match ended {
        Some(status) => status,
        None => {
            return effects;
        },
    };
    let parent = tree.parent_of(id);
    let told = tree.record_exit(id, status.clone());
    tree.clear_active_wait(id);
    let parents = parents_waiting_for(sessions, id);
    tell_exit(&mut effects, &told, &status);
    send_state(&mut effects, id, SessionState::Destroyed);
    if let Some(parent_id) = parent {
        send(&mut effects, CoreOutput::ChildExited { parent_id, child_id: id, status });
    }
    take_out(sessions, id);
    wake_parents(deferred, &parents);
    add_effect(&mut effects, Effect::Checkpoint);
    assert(effects.deep_view() =~= wanted.effects);
    effects
}

/// Makes a session for another. Fails if it is there already.
pub fn start_child_session(
    sessions: &mut Vec<(SessionId, Session)>,
    tree: &mut SessionTree,
    deferred: &mut VecDeque<CoreInput>,
    parent_id: SessionId,
    child_id: SessionId,
    task: String,
    turn_id: String,
    created_at: String,
    system_prompt: Option<String>,
    prompt_behavior: PermissionPromptBehavior,
    defaults: &ChildDefaults,
    belt: &ToolBelt,
    instructions: &Option<ProjectInstructions>,
    memory: SessionMemory,
) -> (r: Result<Vec<Effect>, String>)
    ensures
        match r {
            Ok(effects) => {
                let child = child_of(
                    old(sessions).deep_view(),
                    parent_id,
                    child_id,
                    defaults.deep_view(),
                    system_prompt.deep_view(),
                    prompt_behavior,
                    belt.deep_view(),
                    instructions.deep_view(),
                    memory.deep_view(),
                    created_at@,
                );
                let after = child_begun(
                    old(sessions).deep_view(),
                    old(tree).deep_view(),
                    old(deferred).deep_view(),
                    parent_id,
                    child,
                    task@,
                    turn_id@,
                );
                &&& entry(old(sessions).deep_view(), child_id) is None
                &&& final(sessions).deep_view() == after.sessions
                &&& final(tree).deep_view() == after.tree
                &&& final(deferred).deep_view() == after.deferred
                &&& effects.deep_view() == after.effects
            },
            Err(why) => {
                &&& entry(old(sessions).deep_view(), child_id) is Some
                &&& why@ == "session already exists"@
                &&& final(sessions).deep_view() == old(sessions).deep_view()
                &&& final(tree).deep_view() == old(tree).deep_view()
                &&& final(deferred).deep_view() == old(deferred).deep_view()
            },
        },
{
    if position_of(sessions, child_id).is_some() {
        return Err("session already exists".to_owned());
    }
    let parent = match position_of(sessions, parent_id) {
        Some(i) => Some(known_of(&sessions[i].1)),
        None => None,
    };
    let init = init_of_child(parent, defaults, system_prompt, prompt_behavior);
    let child = Session::new_at(child_id, init, belt, instructions, memory, created_at);
    tree.add_child(parent_id, child_id);
    put(sessions, child_id, child);
    let mut effects: Vec<Effect> = Vec::new();
    send(&mut effects, CoreOutput::ChildSpawned { parent_id, child_id });
    send_state(&mut effects, child_id, SessionState::Idle);
    add_effect(&mut effects, Effect::Checkpoint);
    let ghost before = deferred.deep_view();
    deferred.push_back(CoreInput::UserMessage { session_id: child_id, content: task, turn_id });
    assert(deferred.deep_view() =~= before.push(
        CoreInputView::UserMessage { session_id: child_id, content: task@, turn_id: turn_id@ },
    ));
    assert(effects.deep_view() =~= seq![
        EffectView::Output(CoreOutputView::ChildSpawned { parent_id, child_id }),
        state_effect(child_id, SessionState::Idle),
        EffectView::Checkpoint,
    ]);
    Ok(effects)
}

/// The result that a session that waits goes on with, if it waits.
pub fn result_for_wait(session: &Session, outcome: &ToolOutcome) -> (r: Option<PendingResult>)
    ensures
        r.deep_view() == (match session.deep_view().suspended_wait {
            Some(wait) => {
                let (output, is_error) = outcome_text(outcome.deep_view());
                Some(
                    PendingResultView {
                        from_wait: true,
                        tool_use_id: wait.tool_use_id(),
                        output,
                        is_error,
                    },
                )
            },
            None => None,
        }),
{
    match &session.suspended_wait {
        Some(wait) => {
            let (output, is_error) = outcome.output_text();
            Some(
                PendingResult {
                    from_wait: true,
                    tool_use_id: wait.tool_use_id().to_owned(),
                    output,
                    is_error,
                },
            )
        },
        None => None,
    }
}

/// Lets a session go on with the result that its wait ended with.
pub fn resume_session_from_wait(
    session: &mut Session,
    tree: &mut SessionTree,
    result: PendingResult,
    prepared: String,
) -> (effects: Vec<Effect>)
    ensures
        final(session).deep_view() == resumed_session(
            old(session).deep_view(),
            result.deep_view(),
            prepared@,
        ),
        final(tree).deep_view() == (SessionTreeView {
            waits: without(old(tree).deep_view().waits, old(session).deep_view().id),
            ..old(tree).deep_view()
        }),
        effects.deep_view() == seq![
            EffectView::Output(
                CoreOutputView::ToolResult {
                    session_id: old(session).deep_view().id,
                    tool_use_id: result.deep_view().tool_use_id,
                    tool_name: "suspended_wait"@,
                    content: result.deep_view().output,
                    is_error: result.deep_view().is_error,
                    duration_us: 0,
                },
            ),
            state_effect(old(session).deep_view().id, SessionState::Streaming),
        ],
{
    let ghost before = session.history.deep_view();
    let id = session.id;
    session.suspended_wait = None;
    tree.clear_active_wait(id);
    session.history.push(
        Message::tool_result(result.tool_use_id.clone(), prepared, result.is_error),
    );
    assert(session.history.deep_view() =~= before.push(
        tool_result_message(result.tool_use_id@, prepared@, result.is_error),
    ));
    session.state = SessionState::Streaming;
    let mut effects: Vec<Effect> = Vec::new();
    send(
        &mut effects,
        CoreOutput::ToolResult {
            session_id: id,
            tool_use_id: result.tool_use_id,
            tool_name: "suspended_wait".to_owned(),
            content: result.output,
            is_error: result.is_error,
            duration_us: 0,
        },
    );
    send_state(&mut effects, id, SessionState::Streaming);
    assert(effects.deep_view() =~= seq![
        EffectView::Output(
            CoreOutputView::ToolResult {
                session_id: id,
                tool_use_id: result.tool_use_id@,
                tool_name: "suspended_wait"@,
                content: result.output@,
                is_error: result.is_error,
                duration_us: 0,
            },
        ),
        state_effect(id, SessionState::Streaming),
    ]);
    effects
}

} // verus!
