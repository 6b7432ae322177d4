//! What waiting is for: a session waits for what it asked for, as long as it said, and gets
//! what it waited for.

use vstd::prelude::*;

use crate::actor::{command_move, ActorNextView, SessionActorView, SessionCommandView};
use crate::channel::{CoreOutputView, MailboxMessageView, MessageSource, ToolOutcomeView};
use crate::context::SessionView;
use crate::core_sessions::{expired, SessionList};
use crate::effect::EffectView;
use crate::laws::parts::{begins_with, lemma_is_between, part_of};
use crate::permissions::PermissionVerdictView;
use crate::session::{named_session, uuid_text, ExitStatusView, SessionId, SessionState};
use crate::session_tree::SessionTreeView;
use crate::table::entry;
use crate::tool_run::{tool_awaits, tool_move, ToolRunActionView, ToolRunEventView, ToolRunView};
use crate::turn::Host;
use crate::wait::{admits, message_json, reaches, SuspendedWaitView};

verus! {

broadcast use vstd::seq::group_seq_axioms;

proof fn lemma_names_of_waits()
    ensures
        "wait_child"@ != "spawn"@,
        "wait_child"@ != "recv_message"@,
        "recv_message"@ != "spawn"@,
{
    reveal_strlit("spawn");
    reveal_strlit("wait_child");
    reveal_strlit("recv_message");
    assert("wait_child"@.len() == 10 && "recv_message"@.len() == 12 && "spawn"@.len() == 5);
}

/// A wait that begins now and is to last so long ends then; one that is not to end has no end.
pub proof fn law_wait_lasts_as_long_as_was_asked(
    run: ToolRunView,
    session: SessionView,
    tree: SessionTreeView,
    edges: Seq<(SessionId, SessionId)>,
    now_ms: u64,
    event: ToolRunEventView,
)
    requires
        tool_awaits(run, event),
        session.suspended_wait is None,
    ensures
        ({
            let after = tool_move(run, session, tree, edges, now_ms, event);
            after.session.suspended_wait matches Some(wait) ==> {
                let timeout = match wait {
                    SuspendedWaitView::Mailbox { timeout_at, .. } => timeout_at,
                    SuspendedWaitView::ChildExit { timeout_at, .. } => timeout_at,
                };
                &&& run.call.arguments.count("timeout_ms"@) matches Some(timeout_ms) ==> (timeout
                    matches Some(end) && end == now_ms + timeout_ms)
                &&& run.call.arguments.count("timeout_ms"@) is None ==> timeout is None
            }
        }),
{
    lemma_names_of_waits();
}

/// A wait is for the child, or for the sender, that the call names.
pub proof fn law_wait_is_for_what_was_named(
    run: ToolRunView,
    session: SessionView,
    tree: SessionTreeView,
    edges: Seq<(SessionId, SessionId)>,
    now_ms: u64,
    event: ToolRunEventView,
)
    requires
        tool_awaits(run, event),
        session.suspended_wait is None,
    ensures
        ({
            let after = tool_move(run, session, tree, edges, now_ms, event);
            &&& after.session.suspended_wait matches Some(
                SuspendedWaitView::ChildExit { tool_use_id, child_id, .. },
            ) ==> {
                &&& tool_use_id == run.call.tool_use_id
                &&& run.call.arguments.text("child_id"@) matches Some(written)
                &&& named_session(written) == Some(child_id)
                &&& entry(after.tree.waits, session.id) == Some(child_id)
            }
            &&& after.session.suspended_wait matches Some(
                SuspendedWaitView::Mailbox { tool_use_id, source, .. },
            ) ==> {
                &&& tool_use_id == run.call.tool_use_id
                &&& run.call.arguments.text("source"@) matches Some(written)
                &&& source == MessageSource::Any <==> written == "any"@
                &&& source matches MessageSource::Session(id) ==> named_session(written) == Some(
                    id,
                )
                &&& forall|i: int|
                    0 <= i < session.mailbox.len() ==> !admits(
                        source,
                        #[trigger] session.mailbox[i],
                    )
            }
            &&& after.session.suspended_wait is Some ==> {
                &&& after.session.state == SessionState::Waiting
                &&& run.call.arguments.flag("non_blocking"@) != Some(true)
            }
        }),
{
    lemma_names_of_waits();
    let after = tool_move(run, session, tree, edges, now_ms, event);
    if let Some(SuspendedWaitView::Mailbox { source, .. }) = after.session.suspended_wait {
        lemma_nothing_popped(session.mailbox, source);
    }
    if let Some(SuspendedWaitView::ChildExit { child_id, .. }) = after.session.suspended_wait {
        crate::table::law_entries(tree.waits, session.id, child_id, session.id);
    }
}

proof fn lemma_nothing_popped(mailbox: Seq<MailboxMessageView>, source: MessageSource)
    requires
        crate::wait::popped(mailbox, source) is None,
    ensures
        forall|i: int| 0 <= i < mailbox.len() ==> !admits(source, #[trigger] mailbox[i]),
    decreases mailbox.len(),
{
    if mailbox.len() > 0 {
        let rest = mailbox.drop_first();
        if !admits(source, mailbox[0]) {
            lemma_nothing_popped(rest, source);
            assert forall|i: int| 0 <= i < mailbox.len() implies !admits(
                source,
                #[trigger] mailbox[i],
            ) by {
                if i > 0 {
                    assert(rest[i - 1] == mailbox[i]);
                }
            }
        }
    }
}

/// Any message is for one who waits for any, and only those of a session for one who waits
/// for that session.
pub proof fn law_admitted_messages(message: MailboxMessageView, id: SessionId)
    ensures
        admits(MessageSource::Any, message),
        admits(MessageSource::Session(id), message) <==> message.from == id,
{
}

/// A message that is there when it is asked for is handed over at once, and no other is taken
/// out of the mailbox.
pub proof fn law_message_is_handed_over(
    run: ToolRunView,
    session: SessionView,
    tree: SessionTreeView,
    edges: Seq<(SessionId, SessionId)>,
    now_ms: u64,
)
    requires
        tool_awaits(
            run,
            ToolRunEventView::Permission(PermissionVerdictView::Allowed),
        ),
        run.call.tool_name == "recv_message"@,
        run.call.arguments.text("source"@) == Some("any"@),
        session.mailbox.len() > 0,
    ensures
        ({
            let after = tool_move(
                run,
                session,
                tree,
                edges,
                now_ms,
                ToolRunEventView::Permission(PermissionVerdictView::Allowed),
            );
            &&& after.action == ToolRunActionView::Finished(
                ToolOutcomeView::Success { output: message_json(session.mailbox[0]) },
            )
            &&& after.session.mailbox == session.mailbox.drop_first()
            &&& after.session.suspended_wait == session.suspended_wait
        }),
{
    lemma_names_of_waits();
    assert(crate::wait::popped(session.mailbox, MessageSource::Any) == Some(session.mailbox[0]));
    assert(crate::wait::after_pop(session.mailbox, MessageSource::Any)
        =~= session.mailbox.drop_first());
}

/// Asking for the end of a child that has ended gives how it ended.
pub proof fn law_end_of_a_child_is_handed_over(
    run: ToolRunView,
    session: SessionView,
    tree: SessionTreeView,
    edges: Seq<(SessionId, SessionId)>,
    now_ms: u64,
    written: Seq<char>,
    child_id: SessionId,
    status: ExitStatusView,
    rendered: Seq<char>,
)
    requires
        tool_awaits(
            run,
            ToolRunEventView::Permission(PermissionVerdictView::Allowed),
        ),
        run.call.tool_name == "wait_child"@,
        run.call.arguments.text("child_id"@) == Some(written),
        named_session(written) == Some(child_id),
        entry(tree.parents, child_id) == Some(session.id),
        entry(tree.exits, child_id) == Some(status),
    ensures
        ({
            let after = tool_move(
                run,
                session,
                tree,
                edges,
                now_ms,
                ToolRunEventView::Permission(PermissionVerdictView::Allowed),
            );
            &&& after.action == ToolRunActionView::RenderExit(status)
            &&& after.session.suspended_wait == session.suspended_wait
            &&& tool_move(
                after.run,
                after.session,
                after.tree,
                edges,
                now_ms,
                ToolRunEventView::Rendered(rendered),
            ).action == ToolRunActionView::Finished(ToolOutcomeView::Success { output: rendered })
        }),
{
    lemma_names_of_waits();
}

/// A session is among those whose waits are given up exactly where it waits and its time has
/// come, and it is told which of its tools has run out of time.
pub proof fn law_wait_ends_when_its_time_has_come(
    sessions: SessionList,
    now_ms: u128,
    i: int,
)
    requires
        0 <= i < sessions.len(),
        forall|j: int, k: int|
            0 <= j < k < sessions.len() ==> (#[trigger] sessions[j]).0 != (
            #[trigger] sessions[k]).0,
    ensures
        ({
            let end = match sessions[i].1.suspended_wait {
                Some(SuspendedWaitView::Mailbox { timeout_at, .. }) => timeout_at,
                Some(SuspendedWaitView::ChildExit { timeout_at, .. }) => timeout_at,
                None => None,
            };
            let over = end matches Some(end) && end <= now_ms;
            &&& over <==> exists|k: int|
                0 <= k < expired(sessions, now_ms).len() && (#[trigger] expired(
                    sessions,
                    now_ms,
                )[k]).0 == sessions[i].0
            &&& over ==> exists|k: int|
                0 <= k < expired(sessions, now_ms).len() && (#[trigger] expired(sessions, now_ms)[k])
                    == (
                    sessions[i].0,
                    if sessions[i].1.suspended_wait->0 is Mailbox {
                        "recv_message timed out"@
                    } else {
                        "wait_child timed out"@
                    },
                )
        }),
    decreases sessions.len(),
{
    let front = sessions.drop_last();
    let told = expired(sessions, now_ms);
    let told_front = expired(front, now_ms);
    assert forall|j: int, k: int| 0 <= j < k < front.len() implies (#[trigger] front[j]).0 != (
    #[trigger] front[k]).0 by {
        assert(front[j] == sessions[j] && front[k] == sessions[k]);
    }
    lemma_only_sessions_expire(front, now_ms);
    let last = sessions[sessions.len() - 1];
    assert(last == sessions.last());
    if i < sessions.len() - 1 {
        law_wait_ends_when_its_time_has_come(front, now_ms, i);
        assert(front[i] == sessions[i]);
        assert(sessions[i].0 != last.0);
        if exists|k: int| 0 <= k < told_front.len() && (#[trigger] told_front[k]).0
            == sessions[i].0 {
            let why = if sessions[i].1.suspended_wait->0 is Mailbox {
                "recv_message timed out"@
            } else {
                "wait_child timed out"@
            };
            let k = choose|k: int|
                0 <= k < told_front.len() && (#[trigger] told_front[k]) == (sessions[i].0, why);
            assert(told[k] == told_front[k]);
        }
        if exists|k: int| 0 <= k < told.len() && (#[trigger] told[k]).0 == sessions[i].0 {
            let k = choose|k: int| 0 <= k < told.len() && (#[trigger] told[k]).0 == sessions[i].0;
            assert(k < told_front.len());
            assert(told_front[k].0 == sessions[i].0);
        }
    } else {
        if exists|k: int| 0 <= k < told.len() && (#[trigger] told[k]).0 == sessions[i].0 {
            let k = choose|k: int| 0 <= k < told.len() && (#[trigger] told[k]).0 == sessions[i].0;
            if k < told_front.len() {
                let j = choose|j: int|
                    0 <= j < front.len() && (#[trigger] front[j]).0 == told_front[k].0;
                assert(sessions[j].0 == sessions[i].0);
            }
        }
        if told.len() > told_front.len() {
            assert(told[told.len() - 1].0 == sessions[i].0);
        }
    }
}

proof fn lemma_only_sessions_expire(sessions: SessionList, now_ms: u128)
    ensures
        forall|k: int|
            0 <= k < expired(sessions, now_ms).len() ==> exists|j: int|
                0 <= j < sessions.len() && (#[trigger] sessions[j]).0 == (#[trigger] expired(
                    sessions,
                    now_ms,
                )[k]).0,
    decreases sessions.len(),
{
    if sessions.len() > 0 {
        let front = sessions.drop_last();
        lemma_only_sessions_expire(front, now_ms);
        let told = expired(sessions, now_ms);
        let told_front = expired(front, now_ms);
        assert forall|k: int| 0 <= k < told.len() implies exists|j: int|
            0 <= j < sessions.len() && (#[trigger] sessions[j]).0 == (#[trigger] told[k]).0 by {
            if k < told_front.len() {
                assert(told[k] == told_front[k]);
                let j = choose|j: int|
                    0 <= j < front.len() && (#[trigger] front[j]).0 == told_front[k].0;
                assert(sessions[j].0 == told[k].0);
            } else {
                assert(sessions[sessions.len() - 1].0 == told[k].0);
            }
        }
    }
}

/// A session that waits for a message gets the first one that comes for it, whole, as the
/// result of the call that waits. A message that is not for it only lies in its mailbox.
pub proof fn law_message_wakes_with_its_content(
    actor: SessionActorView,
    tree: SessionTreeView,
    message: MailboxMessageView,
    tool_use_id: Seq<char>,
    source: MessageSource,
    timeout_at: Option<u128>,
)
    requires
        actor.session.suspended_wait == Some(
            SuspendedWaitView::Mailbox { tool_use_id, source, timeout_at },
        ),
        forall|i: int|
            0 <= i < actor.session.mailbox.len() ==> !admits(
                source,
                #[trigger] actor.session.mailbox[i],
            ),
    ensures
        ({
            let after = command_move(actor, tree, SessionCommandView::MailboxMessage(message));
            &&& admits(source, message) ==> {
                &&& after.next matches ActorNextView::PrepareResult(result)
                &&& result.tool_use_id == tool_use_id
                &&& result.output == message_json(message)
                &&& !result.is_error
                &&& result.from_wait
                &&& after.actor.session.mailbox == actor.session.mailbox
            }
            &&& !admits(source, message) ==> {
                &&& after.next is Continue
                &&& after.actor.session.mailbox == actor.session.mailbox.push(message)
                &&& after.actor.session.suspended_wait == actor.session.suspended_wait
            }
        }),
{
    let with = actor.session.mailbox.push(message);
    if admits(source, message) {
        lemma_last_is_popped(actor.session.mailbox, message, source);
    }
}

proof fn lemma_last_is_popped(
    mailbox: Seq<MailboxMessageView>,
    message: MailboxMessageView,
    source: MessageSource,
)
    requires
        admits(source, message),
        forall|i: int| 0 <= i < mailbox.len() ==> !admits(source, #[trigger] mailbox[i]),
    ensures
        crate::wait::popped(mailbox.push(message), source) == Some(message),
        crate::wait::after_pop(mailbox.push(message), source) == mailbox,
    decreases mailbox.len(),
{
    let with = mailbox.push(message);
    if mailbox.len() > 0 {
        let rest = mailbox.drop_first();
        assert forall|i: int| 0 <= i < rest.len() implies !admits(source, #[trigger] rest[i]) by {
            assert(rest[i] == mailbox[i + 1]);
        }
        lemma_last_is_popped(rest, message, source);
        assert(with.drop_first() =~= rest.push(message));
        assert(!admits(source, mailbox[0]));
        assert(with[0] == mailbox[0]);
    }
    assert(crate::wait::after_pop(with, source) =~= mailbox);
}

/// A session that waits for the end of a child gets how that child ended. The end of another
/// child does not wake it.
pub proof fn law_end_of_a_child_wakes(
    actor: SessionActorView,
    tree: SessionTreeView,
    tool_use_id: Seq<char>,
    child_id: SessionId,
    timeout_at: Option<u128>,
    ended: SessionId,
    told: ExitStatusView,
    status: ExitStatusView,
)
    requires
        actor.session.suspended_wait == Some(
            SuspendedWaitView::ChildExit { tool_use_id, child_id, timeout_at },
        ),
        entry(tree.exits, child_id) == Some(status),
    ensures
        ({
            let after = command_move(
                actor,
                tree,
                SessionCommandView::ChildExited { child_id: ended, status: told },
            );
            &&& ended == child_id ==> after.next == ActorNextView::RenderExit(status)
            &&& ended != child_id ==> after.next is Continue
            &&& after.actor == actor
        }),
{
}

/// A result that is given to a session that waits is the result of the call that waits:
/// what it says and whether it is an error.
pub proof fn law_result_ends_a_wait(
    actor: SessionActorView,
    tree: SessionTreeView,
    wait: SuspendedWaitView,
    named: Seq<char>,
    outcome: ToolOutcomeView,
)
    requires
        actor.session.suspended_wait == Some(wait),
    ensures
        ({
            let after = command_move(
                actor,
                tree,
                SessionCommandView::ToolResult { tool_use_id: named, result: outcome },
            );
            let waiting = match wait {
                SuspendedWaitView::Mailbox { tool_use_id, .. } => tool_use_id,
                SuspendedWaitView::ChildExit { tool_use_id, .. } => tool_use_id,
            };
            &&& after.next matches ActorNextView::PrepareResult(result)
            &&& result.tool_use_id == waiting
            &&& result.is_error <==> !(outcome is Success)
            &&& outcome matches ToolOutcomeView::Success { output } ==> result.output == output
            &&& outcome matches ToolOutcomeView::Error { message } ==> result.output == message
            &&& result.from_wait
        }),
{
}

/// A session that asks for a message which is not there waits for it, and a session that asks
/// for the end of a child which has not ended waits for that. The turn is suspended, which is
/// told and saved.
pub proof fn law_waiting_begins(
    run: ToolRunView,
    session: SessionView,
    tree: SessionTreeView,
    edges: Seq<(SessionId, SessionId)>,
    now_ms: u64,
    written: Seq<char>,
    child_id: SessionId,
)
    requires
        tool_awaits(run, ToolRunEventView::Permission(PermissionVerdictView::Allowed)),
        run.call.arguments.flag("non_blocking"@) != Some(true),
        run.call.tool_name == "recv_message"@ || run.call.tool_name == "wait_child"@,
    ensures
        ({
            let after = tool_move(
                run,
                session,
                tree,
                edges,
                now_ms,
                ToolRunEventView::Permission(PermissionVerdictView::Allowed),
            );
            let waits = (run.call.tool_name == "recv_message"@ && run.call.arguments.text(
                "source"@,
            ) == Some("any"@) && session.mailbox.len() == 0) || (run.call.tool_name
                == "wait_child"@ && run.call.arguments.text("child_id"@) == Some(written)
                && named_session(written) == Some(child_id) && entry(tree.parents, child_id)
                == Some(session.id) && entry(tree.exits, child_id) is None && !reaches(
                tree.waits,
                child_id,
                session.id,
            ) && !reaches(edges, child_id, session.id));
            waits ==> {
                &&& after.session.suspended_wait matches Some(wait)
                &&& wait is Mailbox <==> run.call.tool_name == "recv_message"@
                &&& after.session.state == SessionState::Waiting
                &&& !after.session.cancel_armed
                &&& after.action == ToolRunActionView::Finished(ToolOutcomeView::Cancelled)
                &&& after.effects.len() >= 2
                &&& after.effects[after.effects.len() - 2] == EffectView::Output(
                    CoreOutputView::SessionStateChanged {
                        session_id: session.id,
                        state: SessionState::Waiting,
                    },
                )
                &&& after.effects.last() == EffectView::Checkpoint
            }
        }),
{
    lemma_names_of_waits();
}

/// One who does not want to wait gets nothing where there is nothing, and does not wait.
pub proof fn law_not_waiting(
    run: ToolRunView,
    session: SessionView,
    tree: SessionTreeView,
    edges: Seq<(SessionId, SessionId)>,
    now_ms: u64,
    written: Seq<char>,
    child_id: SessionId,
)
    requires
        tool_awaits(run, ToolRunEventView::Permission(PermissionVerdictView::Allowed)),
        run.call.arguments.flag("non_blocking"@) == Some(true),
        (run.call.tool_name == "recv_message"@ && run.call.arguments.text("source"@) == Some(
            "any"@,
        ) && session.mailbox.len() == 0) || (run.call.tool_name == "wait_child"@
            && run.call.arguments.text("child_id"@) == Some(written) && named_session(written)
            == Some(child_id) && entry(tree.exits, child_id) is None),
    ensures
        ({
            let after = tool_move(
                run,
                session,
                tree,
                edges,
                now_ms,
                ToolRunEventView::Permission(PermissionVerdictView::Allowed),
            );
            &&& after.action == ToolRunActionView::Finished(
                ToolOutcomeView::Success { output: "null"@ },
            )
            &&& after.session.suspended_wait == session.suspended_wait
            &&& after.tree == tree
        }),
{
    lemma_names_of_waits();
}

/// A wait that would never end, because the other one waits in turn, is refused, and the error
/// names the other one.
pub proof fn law_endless_waits_are_refused(
    run: ToolRunView,
    session: SessionView,
    tree: SessionTreeView,
    edges: Seq<(SessionId, SessionId)>,
    now_ms: u64,
    written: Seq<char>,
    child_id: SessionId,
)
    requires
        tool_awaits(run, ToolRunEventView::Permission(PermissionVerdictView::Allowed)),
        run.call.tool_name == "wait_child"@,
        run.call.arguments.flag("non_blocking"@) != Some(true),
        run.call.arguments.text("child_id"@) == Some(written),
        named_session(written) == Some(child_id),
        entry(tree.parents, child_id) == Some(session.id),
        entry(tree.exits, child_id) is None,
        reaches(tree.waits, child_id, session.id),
    ensures
        ({
            let after = tool_move(
                run,
                session,
                tree,
                edges,
                now_ms,
                ToolRunEventView::Permission(PermissionVerdictView::Allowed),
            );
            &&& after.action matches ToolRunActionView::Finished(
                ToolOutcomeView::Error { message },
            )
            &&& part_of(uuid_text(child_id.0), message)
            &&& begins_with(message, "deadlock detected"@)
            &&& after.session.suspended_wait == session.suspended_wait
            &&& after.tree == tree
        }),
{
    lemma_names_of_waits();
    let id = uuid_text(child_id.0);
    reveal_strlit("deadlock detected: waiting for session ");
    reveal_strlit("deadlock detected: waiting for child ");
    reveal_strlit("deadlock detected");
    lemma_names_the_other("deadlock detected: waiting for session "@, id);
    lemma_names_the_other("deadlock detected: waiting for child "@, id);
}

proof fn lemma_names_the_other(label: Seq<char>, id: Seq<char>)
    requires
        "deadlock detected"@.len() <= label.len(),
        forall|i: int|
            0 <= i < "deadlock detected"@.len() ==> label[i] == #[trigger] "deadlock detected"@[i],
    ensures
        ({
            let message = label + ("SessionId("@ + id + ")"@) + " would create a wait cycle"@;
            part_of(id, message) && begins_with(message, "deadlock detected"@)
        }),
{
    let message = label + ("SessionId("@ + id + ")"@) + " would create a wait cycle"@;
    assert(message =~= (label + "SessionId("@) + id + (")"@ + " would create a wait cycle"@));
    lemma_is_between(message, label + "SessionId("@, id, ")"@ + " would create a wait cycle"@);
    assert(message.take("deadlock detected"@.len() as int) =~= "deadlock detected"@);
}

/// A call that does not say what to wait for is an error, and nothing is waited for.
pub proof fn law_waits_need_a_name(
    run: ToolRunView,
    session: SessionView,
    tree: SessionTreeView,
    edges: Seq<(SessionId, SessionId)>,
    now_ms: u64,
)
    requires
        tool_awaits(run, ToolRunEventView::Permission(PermissionVerdictView::Allowed)),
        (run.call.tool_name == "wait_child"@ && run.call.arguments.text("child_id"@) is None) || (
        run.call.tool_name == "recv_message"@ && run.call.arguments.text("source"@) is None),
    ensures
        ({
            let after = tool_move(
                run,
                session,
                tree,
                edges,
                now_ms,
                ToolRunEventView::Permission(PermissionVerdictView::Allowed),
            );
            &&& after.action matches ToolRunActionView::Finished(
                ToolOutcomeView::Error { message },
            )
            &&& after.session.suspended_wait == session.suspended_wait
            &&& after.session.mailbox == session.mailbox
        }),
{
    lemma_names_of_waits();
}

/// How a session ended is told only to the one that made it. In the core another one gets
/// nothing, and does not wait.
pub proof fn law_children_of_others(
    run: ToolRunView,
    session: SessionView,
    tree: SessionTreeView,
    edges: Seq<(SessionId, SessionId)>,
    now_ms: u64,
    written: Seq<char>,
    child_id: SessionId,
)
    requires
        tool_awaits(run, ToolRunEventView::Permission(PermissionVerdictView::Allowed)),
        run.call.tool_name == "wait_child"@,
        run.call.arguments.text("child_id"@) == Some(written),
        named_session(written) == Some(child_id),
        entry(tree.parents, child_id) != Some(session.id),
    ensures
        ({
            let after = tool_move(
                run,
                session,
                tree,
                edges,
                now_ms,
                ToolRunEventView::Permission(PermissionVerdictView::Allowed),
            );
            &&& !(after.action is RenderExit)
            &&& run.host == Host::Core ==> after.action == ToolRunActionView::Finished(
                ToolOutcomeView::Success { output: "null"@ },
            ) && after.session.suspended_wait == session.suspended_wait && after.tree == tree
        }),
{
    lemma_names_of_waits();
}

/// A session that asks for the messages of another gets the oldest one of that other, and the
/// rest stay where they are.
pub proof fn law_message_of_the_named_sender(
    run: ToolRunView,
    session: SessionView,
    tree: SessionTreeView,
    edges: Seq<(SessionId, SessionId)>,
    now_ms: u64,
    written: Seq<char>,
    sender: SessionId,
    i: int,
)
    requires
        tool_awaits(run, ToolRunEventView::Permission(PermissionVerdictView::Allowed)),
        run.call.tool_name == "recv_message"@,
        run.call.arguments.text("source"@) == Some(written),
        written != "any"@,
        named_session(written) == Some(sender),
        0 <= i < session.mailbox.len(),
        session.mailbox[i].from == sender,
        forall|j: int| 0 <= j < i ==> (#[trigger] session.mailbox[j]).from != sender,
    ensures
        ({
            let after = tool_move(
                run,
                session,
                tree,
                edges,
                now_ms,
                ToolRunEventView::Permission(PermissionVerdictView::Allowed),
            );
            &&& after.action == ToolRunActionView::Finished(
                ToolOutcomeView::Success { output: message_json(session.mailbox[i]) },
            )
            &&& after.session.mailbox == session.mailbox.remove(i)
        }),
{
    lemma_names_of_waits();
    lemma_first_of_sender(session.mailbox, sender, i);
}

proof fn lemma_first_of_sender(mailbox: Seq<MailboxMessageView>, sender: SessionId, i: int)
    requires
        0 <= i < mailbox.len(),
        mailbox[i].from == sender,
        forall|j: int| 0 <= j < i ==> (#[trigger] mailbox[j]).from != sender,
    ensures
        crate::wait::before_match(mailbox, MessageSource::Session(sender)) == i,
    decreases i,
{
    if i > 0 {
        let rest = mailbox.drop_first();
        assert(mailbox[0].from != sender);
        assert(rest[i - 1] == mailbox[i]);
        assert forall|j: int| 0 <= j < i - 1 implies (#[trigger] rest[j]).from != sender by {
            assert(rest[j] == mailbox[j + 1]);
        }
        lemma_first_of_sender(rest, sender, i - 1);
    }
}

} // verus!
