//! What the core does with what comes in.

use vstd::prelude::*;

use crate::actor::SessionCommandView;
use crate::channel::{CoreOutputView, MailboxMessageView, ReplyId};
use crate::core_loop::{
    brought_back, child_gone, made, routed, ChildDefaultsView, CoreActionView, CoreInputView,
    CoreView, SessionHandleView,
};
use crate::context::{PermissionPromptBehavior, SessionInitView, SessionView};
use crate::effect::ReplyView;
use crate::error::CoreErrorView;
use crate::prompt::PromptMemoryMode;
use crate::session::{ExitStatusView, SessionId, SessionState};
use crate::session_tree::SessionTreeView;
use crate::table::entry;

verus! {

broadcast use vstd::seq::group_seq_axioms;

/// What is meant for a session reaches that session as it came in, and nothing else is done.
pub proof fn law_input_reaches_its_session(
    core: CoreView,
    tree: SessionTreeView,
    defaults: ChildDefaultsView,
    input: CoreInputView,
    session_id: SessionId,
)
    requires
        entry(core.handles, session_id) is Some,
    ensures
        ({
            let (after, actions) = routed(core, tree, defaults, input);
            let only = |command: SessionCommandView|
                after == tree && actions == seq![CoreActionView::ToSession { session_id, command }];
            match input {
                CoreInputView::UserMessage { session_id: id, content, turn_id } => id
                    == session_id ==> only(SessionCommandView::UserMessage { content, turn_id }),
                CoreInputView::ToolResult { session_id: id, tool_use_id, result } => id
                    == session_id ==> only(
                    SessionCommandView::ToolResult { tool_use_id, result },
                ),
                CoreInputView::ExitPlanMode { session_id: id, reply } => id == session_id ==> only(
                    SessionCommandView::ExitPlanMode { reply },
                ),
                CoreInputView::UpdateSessionLlm {
                    session_id: id,
                    model_profile,
                    max_context_window,
                    reply,
                } => id == session_id ==> only(
                    SessionCommandView::UpdateSessionLlm {
                        model_profile,
                        max_context_window,
                        reply,
                    },
                ),
                CoreInputView::CompactSession { session_id: id, reply } => id == session_id
                    ==> only(SessionCommandView::CompactSession { reply }),
                CoreInputView::InteractionResponse { session_id: id, response } => id == session_id
                    ==> only(SessionCommandView::InteractionResponse(response)),
                CoreInputView::Cancel { session_id: id } => id == session_id ==> only(
                    SessionCommandView::Cancel,
                ),
                CoreInputView::Signal { session_id: id, signal } => id == session_id ==> only(
                    SessionCommandView::Signal(signal),
                ),
                CoreInputView::SessionMemoryRefreshFinished {
                    session_id: id,
                    last_summarized_message_index,
                    refreshed_at,
                    listing_summary,
                } => id == session_id ==> only(
                    SessionCommandView::SessionMemoryRefreshFinished {
                        last_summarized_message_index,
                        refreshed_at,
                        listing_summary,
                    },
                ),
                CoreInputView::RecvMessage { session_id: id, source, reply } => id == session_id
                    ==> only(SessionCommandView::QueryMailbox { source, reply }),
                CoreInputView::SendMessage { from, to, content } => to == session_id ==> after
                    == tree && actions == seq![
                    CoreActionView::ToSession {
                        session_id,
                        command: SessionCommandView::MailboxMessage(
                            MailboxMessageView { from, content },
                        ),
                    },
                    CoreActionView::Output(
                        CoreOutputView::MessageReceived { session_id, from, content },
                    ),
                ],
                _ => true,
            }
        }),
{
}

/// What is meant for a session that is not there reaches no session. Whoever asked for an
/// answer gets one, a message of the user is answered with an error, and the rest is dropped.
pub proof fn law_unknown_sessions(
    core: CoreView,
    tree: SessionTreeView,
    defaults: ChildDefaultsView,
    input: CoreInputView,
    session_id: SessionId,
)
    requires
        entry(core.handles, session_id) is None,
    ensures
        ({
            let (after, actions) = routed(core, tree, defaults, input);
            let refused = |reply: ReplyId|
                after == tree && actions.len() == 1 && (actions[0] matches CoreActionView::Reply {
                    to,
                    reply: ReplyView::Refused(_),
                } && to == reply);
            let missing = after == tree && actions == seq![
                CoreActionView::Output(
                    CoreOutputView::SessionError {
                        session_id,
                        error: CoreErrorView::SessionNotFound,
                    },
                ),
            ];
            let dropped = after == tree && actions.len() == 0;
            match input {
                CoreInputView::UserMessage { session_id: id, .. } => id == session_id ==> missing,
                CoreInputView::ToolResult { session_id: id, .. } => id == session_id ==> missing,
                CoreInputView::ExitPlanMode { session_id: id, reply } => id == session_id
                    ==> refused(reply),
                CoreInputView::UpdateSessionLlm { session_id: id, reply, .. } => id == session_id
                    ==> refused(reply),
                CoreInputView::CompactSession { session_id: id, reply } => id == session_id
                    ==> refused(reply),
                CoreInputView::InteractionResponse { session_id: id, .. } => id == session_id
                    ==> dropped,
                CoreInputView::Cancel { session_id: id } => id == session_id ==> dropped,
                CoreInputView::Signal { session_id: id, .. } => id == session_id ==> dropped,
                CoreInputView::SessionMemoryRefreshFinished { session_id: id, .. } => id
                    == session_id ==> dropped,
                CoreInputView::SendMessage { to, .. } => to == session_id ==> dropped,
                CoreInputView::RecvMessage { session_id: id, reply, .. } => id == session_id
                    ==> after == tree && actions == seq![
                    CoreActionView::Reply { to: reply, reply: ReplyView::Message(None) },
                ],
                _ => true,
            }
        }),
{
}

/// A session is made once. One that another session makes has its prompt and its task, the
/// model and the group of its parent, the window of its parent where that is known, no skills
/// and no memory, and does not only plan.
pub proof fn law_sessions_are_made(
    core: CoreView,
    tree: SessionTreeView,
    defaults: ChildDefaultsView,
    session_id: SessionId,
    parent_id: SessionId,
    init: SessionInitView,
    task: Seq<char>,
    system_prompt: Option<Seq<char>>,
    prompt_behavior: PermissionPromptBehavior,
    reply: ReplyId,
)
    ensures
        ({
            let created = routed(
                core,
                tree,
                defaults,
                CoreInputView::CreateSession { session_id, init, reply },
            );
            let spawned = routed(
                core,
                tree,
                defaults,
                CoreInputView::SpawnSession {
                    parent_id,
                    child_id: session_id,
                    task,
                    system_prompt,
                    prompt_behavior,
                    reply,
                },
            );
            let refused = seq![
                CoreActionView::Reply {
                    to: reply,
                    reply: ReplyView::Refused("session already exists"@),
                },
            ];
            &&& created.0 == tree && spawned.0 == tree
            &&& entry(core.handles, session_id) is Some ==> created.1 == refused && spawned.1
                == refused
            &&& entry(core.handles, session_id) is None ==> {
                &&& created.1 == seq![
                    CoreActionView::Create { session_id, parent_id: None, init, task: None, reply },
                ]
                &&& spawned.1.len() == 1
                &&& spawned.1[0] matches CoreActionView::Create {
                    session_id: child,
                    parent_id: parent,
                    init: given,
                    task: for_child,
                    reply: to,
                }
                &&& child == session_id && parent == Some(parent_id) && for_child == Some(task)
                    && to == reply
                &&& given.system_prompt == system_prompt
                &&& given.prompt_behavior == prompt_behavior
                &&& given.working_directory == defaults.working_directory
                &&& given.auto_compact_threshold_percent == defaults.auto_compact_threshold_percent
                &&& given.status_report_min_tool_rounds == defaults.status_report_min_tool_rounds
                &&& given.skills.len() == 0 && given.initial_messages.len() == 0
                &&& !given.plan_mode
                &&& given.prompt_memory_mode == PromptMemoryMode::Disabled
                &&& given.agent_key is None && given.team_key is None
                &&& entry(core.handles, parent_id) matches Some(handle) ==> {
                    &&& given.model_profile == handle.model_profile
                    &&& given.session_group == handle.session_group
                    &&& given.max_context_window == (if handle.max_context_window is Some {
                        handle.max_context_window
                    } else {
                        defaults.max_context_window
                    })
                }
                &&& entry(core.handles, parent_id) is None ==> given.model_profile is None
                    && given.session_group is None && given.max_context_window
                    == defaults.max_context_window
            }
        }),
{
}

/// Waiting for a session is answered with how it ended. One that has not ended is waited for,
/// unless one does not want to wait.
pub proof fn law_waiting_for_a_session(
    core: CoreView,
    tree: SessionTreeView,
    defaults: ChildDefaultsView,
    parent_id: SessionId,
    child_id: SessionId,
    non_blocking: bool,
    reply: ReplyId,
)
    ensures
        ({
            let (after, actions) = routed(
                core,
                tree,
                defaults,
                CoreInputView::WaitSession { parent_id, child_id, non_blocking, reply },
            );
            let told = |exit: Option<ExitStatusView>|
                after == tree && actions == seq![
                    CoreActionView::Reply { to: reply, reply: ReplyView::Exit(exit) },
                ];
            let exit = entry(tree.exits, child_id);
            let own = entry(tree.parents, child_id) == Some(parent_id);
            &&& exit is Some && (own || !non_blocking) ==> told(exit)
            &&& non_blocking && !(exit is Some && own) ==> told(None)
            &&& !non_blocking && exit is None ==> actions.len() == 0 && after == (SessionTreeView {
                waiters: tree.waiters.push((child_id, reply)),
                ..tree
            })
        }),
{
}

/// What goes to the host goes there as it came in: messages for later, messages between
/// processes, and requests to save.
pub proof fn law_input_reaches_the_host(
    core: CoreView,
    tree: SessionTreeView,
    defaults: ChildDefaultsView,
    input: CoreInputView,
)
    ensures
        ({
            let (after, actions) = routed(core, tree, defaults, input);
            match input {
                CoreInputView::ScheduleUserMessage {
                    session_id,
                    content,
                    delay_ms,
                    cadence_ms,
                } => after == tree && actions == seq![
                    CoreActionView::Schedule { session_id, content, delay_ms, cadence_ms },
                ],
                CoreInputView::SendHarnessIpcMessage { target, content, reply } => after == tree
                    && actions == seq![CoreActionView::SendIpc { target, content, reply }],
                CoreInputView::RecvHarnessIpcMessage { source, non_blocking, reply } => after
                    == tree && actions == seq![
                    CoreActionView::RecvIpc { source, non_blocking, reply },
                ],
                CoreInputView::RequestCheckpoint { reply } => after == tree && actions == seq![
                    CoreActionView::SnapshotAll { reply },
                ],
                CoreInputView::RequestSessionCheckpoint { session_id, reply } => after == tree
                    && actions == seq![CoreActionView::SnapshotOne { session_id, reply }],
                _ => true,
            }
        }),
{
}

/// Shutting down tells every session, and then the core stops.
pub proof fn law_shutdown_reaches_all(
    core: CoreView,
    tree: SessionTreeView,
    defaults: ChildDefaultsView,
    i: int,
)
    requires
        0 <= i < core.handles.len(),
    ensures
        ({
            let (after, actions) = routed(core, tree, defaults, CoreInputView::Shutdown);
            &&& after == tree
            &&& actions.len() == core.handles.len() + 1
            &&& actions[i] == (CoreActionView::ToSession {
                session_id: core.handles[i].0,
                command: SessionCommandView::Shutdown,
            })
            &&& actions[actions.len() - 1] == CoreActionView::Stop
        }),
{
}

/// A session that was made is told of, with its parent, and gets its task as a user message.
/// The state is saved, and the one who asked for it is answered. What the core knows of it is
/// what it was made with.
pub proof fn law_made_session_gets_its_task(
    core: CoreView,
    tree: SessionTreeView,
    session: SessionView,
    parent_id: SessionId,
    task: Seq<char>,
    turn_id: Seq<char>,
    reply: ReplyId,
    other: SessionId,
)
    requires
        entry(core.handles, session.id) is None,
    ensures
        ({
            let id = session.id;
            let child = made(core, tree, session, Some(parent_id), Some(task), turn_id, reply);
            let alone = made(core, tree, session, None, None, turn_id, reply);
            let idle = CoreActionView::Output(
                CoreOutputView::SessionStateChanged { session_id: id, state: SessionState::Idle },
            );
            &&& child.2[0] == CoreActionView::Output(
                CoreOutputView::ChildSpawned { parent_id, child_id: id },
            )
            &&& child.2[1] == idle
            &&& child.2[2] == (CoreActionView::ToSession {
                session_id: id,
                command: SessionCommandView::UserMessage { content: task, turn_id },
            })
            &&& child.2.len() == 5
            &&& child.2[3] == CoreActionView::Checkpoint
            &&& child.2[4] == (CoreActionView::Reply { to: reply, reply: ReplyView::Accepted })
            &&& alone.2 == seq![
                idle,
                CoreActionView::Checkpoint,
                CoreActionView::Reply { to: reply, reply: ReplyView::Accepted },
            ]
            &&& alone.1 == tree
            &&& child.0 == alone.0
            &&& entry(child.1.parents, id) == Some(parent_id)
            &&& other != id ==> entry(child.1.parents, other) == entry(tree.parents, other)
            &&& child.1 == (SessionTreeView { parents: child.1.parents, ..tree })
            &&& other != id ==> entry(child.0.handles, other) == entry(core.handles, other)
            &&& entry(child.0.handles, id) == Some(
                SessionHandleView {
                    max_context_window: session.max_context_window,
                    model_profile: session.config.model_profile,
                    session_group: session.config.session_group,
                },
            )
        }),
{
    let handle = SessionHandleView {
        max_context_window: session.max_context_window,
        model_profile: session.config.model_profile,
        session_group: session.config.session_group,
    };
    crate::table::law_entries(core.handles, session.id, handle, session.id);
    crate::table::law_entries(core.handles, session.id, handle, other);
    crate::table::law_entries(tree.parents, session.id, parent_id, session.id);
    crate::table::law_entries(tree.parents, session.id, parent_id, other);
    let alone = made(core, tree, session, None, None, turn_id, reply);
    assert(alone.2 =~= seq![
        CoreActionView::Output(
            CoreOutputView::SessionStateChanged {
                session_id: session.id,
                state: SessionState::Idle,
            },
        ),
        CoreActionView::Checkpoint,
        CoreActionView::Reply { to: reply, reply: ReplyView::Accepted },
    ]);
}

/// A session that was brought back is known and its state is told. One that is known already
/// changes nothing.
pub proof fn law_brought_back_session(core: CoreView, session: SessionView, other: SessionId)
    ensures
        ({
            let (after, actions) = brought_back(core, session);
            &&& entry(core.handles, session.id) is Some ==> after == core && actions.len() == 0
            &&& entry(core.handles, session.id) is None ==> {
                &&& actions == seq![
                    CoreActionView::Output(
                        CoreOutputView::SessionStateChanged {
                            session_id: session.id,
                            state: session.state,
                        },
                    ),
                ]
                &&& entry(after.handles, session.id) == Some(
                    SessionHandleView {
                        max_context_window: session.max_context_window,
                        model_profile: session.config.model_profile,
                        session_group: session.config.session_group,
                    },
                )
            }
            &&& other != session.id ==> entry(after.handles, other) == entry(core.handles, other)
        }),
{
    let handle = SessionHandleView {
        max_context_window: session.max_context_window,
        model_profile: session.config.model_profile,
        session_group: session.config.session_group,
    };
    crate::table::law_entries(core.handles, session.id, handle, session.id);
    crate::table::law_entries(core.handles, session.id, handle, other);
}

proof fn lemma_waiter_is_listed(waiters: Seq<(SessionId, ReplyId)>, i: int)
    requires
        0 <= i < waiters.len(),
    ensures
        crate::session_tree::waiting_for(waiters, waiters[i].0).contains(waiters[i].1),
    decreases waiters.len(),
{
    let id = waiters[i].0;
    let front = waiters.drop_last();
    let all = crate::session_tree::waiting_for(waiters, id);
    if i == waiters.len() - 1 {
        assert(all[all.len() - 1] == waiters[i].1);
    } else {
        lemma_waiter_is_listed(front, i);
        assert(front[i] == waiters[i]);
        let before = crate::session_tree::waiting_for(front, id);
        let k = choose|k: int| 0 <= k < before.len() && before[k] == waiters[i].1;
        assert(all[k] == before[k]);
    }
}

/// When a child has ended, everyone who waits for it is answered with how it ended, its parent
/// and its state are told to the host, every other session is told, and the state is saved.
pub proof fn law_end_of_a_child_is_told(
    core: CoreView,
    tree: SessionTreeView,
    session_id: SessionId,
    parent_id: SessionId,
    status: ExitStatusView,
    i: int,
    other: SessionId,
)
    ensures
        ({
            let (left, after, actions) = child_gone(core, tree, session_id, parent_id, status);
            &&& 0 <= i < tree.waiters.len() && tree.waiters[i].0 == session_id ==> actions.contains(
                CoreActionView::Reply {
                    to: tree.waiters[i].1,
                    reply: ReplyView::Exit(Some(status)),
                },
            )
            &&& actions.contains(
                CoreActionView::Output(
                    CoreOutputView::SessionStateChanged {
                        session_id,
                        state: SessionState::Destroyed,
                    },
                ),
            )
            &&& actions.contains(
                CoreActionView::Output(
                    CoreOutputView::ChildExited { parent_id, child_id: session_id, status },
                ),
            )
            &&& 0 <= i < left.handles.len() ==> actions.contains(
                CoreActionView::ToSession {
                    session_id: left.handles[i].0,
                    command: SessionCommandView::ChildExited { child_id: session_id, status },
                },
            )
            &&& actions.len() > 0 && actions[actions.len() - 1] == CoreActionView::Checkpoint
            &&& other != session_id ==> entry(left.handles, other) == entry(core.handles, other)
            &&& other != session_id ==> entry(after.exits, other) == entry(tree.exits, other)
            &&& other != session_id ==> entry(after.waiters, other) == entry(tree.waiters, other)
            &&& after == (SessionTreeView { exits: after.exits, waiters: after.waiters, ..tree })
        }),
{
    let (left, after, actions) = child_gone(core, tree, session_id, parent_id, status);
    let waiting = crate::session_tree::waiting_for(tree.waiters, session_id);
    let n = waiting.len() as int;
    if 0 <= i < tree.waiters.len() && tree.waiters[i].0 == session_id {
        lemma_waiter_is_listed(tree.waiters, i);
        let k = choose|k: int| 0 <= k < waiting.len() && waiting[k] == tree.waiters[i].1;
        assert(actions[k] == (CoreActionView::Reply {
            to: tree.waiters[i].1,
            reply: ReplyView::Exit(Some(status)),
        }));
    }
    assert(actions[n] == CoreActionView::Output(
        CoreOutputView::SessionStateChanged { session_id, state: SessionState::Destroyed },
    ));
    assert(actions[n + 1] == CoreActionView::Output(
        CoreOutputView::ChildExited { parent_id, child_id: session_id, status },
    ));
    if 0 <= i < left.handles.len() {
        assert(actions[n + 2 + i] == (CoreActionView::ToSession {
            session_id: left.handles[i].0,
            command: SessionCommandView::ChildExited { child_id: session_id, status },
        }));
    }
    if other != session_id {
        crate::table::law_entries(tree.exits, session_id, status, other);
        if tree.waiters.len() > 0 {
            crate::table::law_entries(tree.waiters, session_id, tree.waiters[0].1, other);
        }
        if core.handles.len() > 0 {
            crate::table::law_entries(core.handles, session_id, core.handles[0].1, other);
        }
    }
}

} // verus!
