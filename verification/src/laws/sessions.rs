//! What a session does with the commands that it gets, and what it is made of.

use vstd::prelude::*;

use crate::actor::{
    command_move, control_move, result_recorded, turn_over, ActorNextView, PendingResultView,
    SessionActorView, SessionCommandView,
};
use crate::channel::{
    CoreOutputView, InteractionResponseView, MailboxMessageView, MessageSource, ReplyId,
    ToolOutcomeView,
};
use crate::context::{
    advertised, last_said, new_session, rebuilt, refresh_considered, refresh_finished,
    refresh_obstacle, report_outputs, restored_session, saved_of, session_tools, with_suffix,
    MemoryReason, MemoryStatus, SavedSessionView, SessionConfigView, SessionInitView,
    SessionMemoryView, SessionView, SkillView, ToolBeltView, ToolSpecView,
};
use crate::effect::{EffectView, ReplyView};
use crate::laws::parts::{begins_with, ends_with};
use crate::message::{MessageContentView, MessageView, Role};
use crate::prompt::ProjectInstructionsView;
use crate::session::{uuid_text, ExitStatusView, SessionId, SessionSignal, SessionState};
use crate::session_tree::SessionTreeView;
use crate::status_report::SessionStatusReportView;
use crate::table::entry;
use crate::turn::TurnOutcomeView;
use crate::wait::admits;

verus! {

broadcast use vstd::seq::group_seq_axioms;

/// What the user says goes to the end of the history as it was said, and a turn begins: the
/// session is not stopped any more, waits for nothing, and tells that the turn has started.
/// A report of an earlier turn is taken back. All else stays.
pub proof fn law_user_message_begins_a_turn(
    actor: SessionActorView,
    tree: SessionTreeView,
    content: Seq<char>,
    turn_id: Seq<char>,
    other: SessionId,
)
    ensures
        ({
            let before = actor.session;
            let move_ = command_move(
                actor,
                tree,
                SessionCommandView::UserMessage { content, turn_id },
            );
            let after = move_.actor.session;
            let n = move_.effects.len();
            &&& after.history == before.history.push(
                MessageView { role: Role::User, content: MessageContentView::Text(content) },
            )
            &&& !after.interrupted
            &&& after.suspended_wait is None
            &&& after.status_report is None
            &&& after.state == SessionState::Streaming
            &&& after.current_turn_tool_rounds == 0
            &&& after.diagnostics matches Some(diagnostics)
            &&& !diagnostics.refresh_attempted
            &&& diagnostics.refresh_status == MemoryStatus::NotRun
            &&& diagnostics.refresh_reason is None
            &&& diagnostics.refreshed_index is None
            &&& diagnostics.refreshed_at is None
            &&& diagnostics.compaction_status == MemoryStatus::NotRun
            &&& diagnostics.compaction_source is None
            &&& diagnostics.compaction_reason is None
            &&& diagnostics.compaction_tail_start is None
            &&& after == (SessionView {
                history: after.history,
                interrupted: after.interrupted,
                suspended_wait: after.suspended_wait,
                status_report: after.status_report,
                state: after.state,
                current_turn_tool_rounds: after.current_turn_tool_rounds,
                diagnostics: after.diagnostics,
                ..before
            })
            &&& move_.actor == (SessionActorView { session: after, ..actor })
            &&& entry(move_.tree.waits, before.id) is None
            &&& other != before.id ==> entry(move_.tree.waits, other) == entry(tree.waits, other)
            &&& move_.tree == (SessionTreeView { waits: move_.tree.waits, ..tree })
            &&& move_.next == (ActorNextView::RunTurn { stops: true })
            &&& n == (if before.status_report is Some {
                3int
            } else {
                2int
            })
            &&& move_.effects[n - 1] == EffectView::Output(
                CoreOutputView::TurnStarted { session_id: before.id, turn_id },
            )
            &&& move_.effects[n - 2] == EffectView::Output(
                CoreOutputView::SessionStateChanged {
                    session_id: before.id,
                    state: SessionState::Streaming,
                },
            )
            &&& before.status_report is Some ==> move_.effects[0] == EffectView::Output(
                CoreOutputView::SessionStatusReport { session_id: before.id, report: None },
            )
        }),
{
    crate::table::law_entries(tree.waits, actor.session.id, actor.session.id, actor.session.id);
    crate::table::law_entries(tree.waits, actor.session.id, actor.session.id, other);
}

/// A session is stopped by a request to cancel and by every signal but the one to go on. A
/// tool that can be told is told. Nothing that was said is lost. Between turns the host is
/// told too, and the session is saved.
pub proof fn law_stop_is_done(
    actor: SessionActorView,
    tree: SessionTreeView,
    command: SessionCommandView,
    other: SessionId,
)
    requires
        command == SessionCommandView::Cancel || (command matches SessionCommandView::Signal(signal)
            && signal != SessionSignal::Continue),
    ensures
        ({
            let session = actor.session;
            let now = control_move(actor, tree, command);
            let between = command_move(actor, tree, command);
            let told = SessionView {
                state: SessionState::Idle,
                interrupted: true,
                cancel_armed: false,
                approval_pending: false,
                ..session
            };
            &&& now.actor == (SessionActorView { session: told, ..actor })
            &&& between.actor == now.actor
            &&& between.tree == now.tree
            &&& now.tree == (SessionTreeView { waits: now.tree.waits, ..tree })
            &&& other != session.id ==> entry(now.tree.waits, other) == entry(tree.waits, other)
            &&& session.cancel_armed ==> now.effects == seq![EffectView::CancelTool]
            &&& !session.cancel_armed ==> now.effects == Seq::<EffectView>::empty()
            &&& between.effects == now.effects + seq![
                EffectView::Output(
                    CoreOutputView::SessionStateChanged {
                        session_id: session.id,
                        state: SessionState::Idle,
                    },
                ),
                EffectView::Checkpoint,
            ]
            &&& now.next == ActorNextView::Continue
            &&& between.next == ActorNextView::Continue
        }),
{
    crate::table::law_entries(tree.waits, actor.session.id, actor.session.id, other);
    let now = control_move(actor, tree, command);
    let between = command_move(actor, tree, command);
    assert(between.effects =~= now.effects + seq![
        EffectView::Output(
            CoreOutputView::SessionStateChanged {
                session_id: actor.session.id,
                state: SessionState::Idle,
            },
        ),
        EffectView::Checkpoint,
    ]);
}

/// The signal to go on takes back that a session was stopped, makes a paused one idle, tells
/// the state, and changes nothing else. During a turn it does nothing.
pub proof fn law_going_on(actor: SessionActorView, tree: SessionTreeView)
    ensures
        ({
            let go_on = SessionCommandView::Signal(SessionSignal::Continue);
            let after = command_move(actor, tree, go_on);
            let state = after.actor.session.state;
            &&& after.actor == (SessionActorView {
                session: SessionView { interrupted: false, state, ..actor.session },
                ..actor
            })
            &&& actor.session.state == SessionState::Paused ==> state == SessionState::Idle
            &&& actor.session.state != SessionState::Paused ==> state == actor.session.state
            &&& after.tree == tree
            &&& after.effects == seq![
                EffectView::Output(
                    CoreOutputView::SessionStateChanged { session_id: actor.session.id, state },
                ),
            ]
            &&& after.next == ActorNextView::Continue
            &&& control_move(actor, tree, go_on).actor == actor
            &&& control_move(actor, tree, go_on).tree == tree
            &&& control_move(actor, tree, go_on).effects.len() == 0
        }),
{
}

/// A session is changed only while it rests. Otherwise the one who asked is told why not, and
/// nothing changes.
pub proof fn law_changes_wait_for_rest(
    actor: SessionActorView,
    tree: SessionTreeView,
    model_profile: Option<Seq<char>>,
    max_context_window: Option<u64>,
    reply: ReplyId,
)
    ensures
        ({
            let rests = actor.session.state == SessionState::Idle || actor.session.state
                == SessionState::Paused;
            let exit = command_move(actor, tree, SessionCommandView::ExitPlanMode { reply });
            let update = command_move(
                actor,
                tree,
                SessionCommandView::UpdateSessionLlm { model_profile, max_context_window, reply },
            );
            let compact = command_move(actor, tree, SessionCommandView::CompactSession { reply });
            &&& exit.actor == actor && exit.tree == tree
            &&& update.actor == actor && update.tree == tree
            &&& compact.actor == actor && compact.tree == tree
            &&& rests ==> exit.next == (ActorNextView::ExitPlanMode { reply }) && exit.effects.len()
                == 0
            &&& rests ==> update.next == (ActorNextView::UpdateLlm {
                model_profile,
                max_context_window,
                reply,
            }) && update.effects.len() == 0
            &&& compact.next == (ActorNextView::Compact { reply }) && compact.effects.len() == 0
            &&& !rests ==> exit.next == ActorNextView::Continue && update.next
                == ActorNextView::Continue
            &&& !rests ==> exit.effects.len() == 1 && (exit.effects[0] matches EffectView::Reply {
                to,
                reply: ReplyView::Refused(why),
            } && to == reply && begins_with(why, "cannot exit plan mode while session is "@))
            &&& !rests ==> update.effects.len() == 1 && (
            update.effects[0] matches EffectView::Reply { to, reply: ReplyView::Refused(why) }
                && to == reply && begins_with(why, "cannot switch model while session is "@))
        }),
{
    let a = "cannot exit plan mode while session is "@;
    let b = "cannot switch model while session is "@;
    let name = crate::session::state_text(actor.session.state);
    assert((a + name).take(a.len() as int) =~= a);
    assert((b + name).take(b.len() as int) =~= b);
}

/// Refusals in different states read differently.
pub proof fn law_refusal_names_the_state(a: SessionState, b: SessionState)
    requires
        a != b,
    ensures
        crate::session::state_text(a) != crate::session::state_text(b),
{
    reveal_strlit("Idle");
    reveal_strlit("Streaming");
    reveal_strlit("Paused");
    reveal_strlit("Waiting");
    reveal_strlit("AwaitingToolResult");
    reveal_strlit("Destroyed");
    assert("Idle"@.len() == 4 && "Streaming"@.len() == 9 && "Paused"@.len() == 6
        && "Waiting"@.len() == 7 && "AwaitingToolResult"@.len() == 18 && "Destroyed"@.len() == 9);
    assert("Streaming"@[0] == 'S' && "Destroyed"@[0] == 'D');
}

/// Whoever asks for a message gets the oldest one that is for them, and it is taken out; the
/// others stay in their order. Without one they are told so. It is the same during a turn.
pub proof fn law_mailbox_hands_out_the_oldest(
    actor: SessionActorView,
    tree: SessionTreeView,
    source: MessageSource,
    reply: ReplyId,
    i: int,
)
    requires
        0 <= i <= actor.session.mailbox.len(),
        i < actor.session.mailbox.len() ==> admits(source, actor.session.mailbox[i]),
        forall|j: int| 0 <= j < i ==> !admits(source, #[trigger] actor.session.mailbox[j]),
    ensures
        ({
            let mailbox = actor.session.mailbox;
            let after = command_move(
                actor,
                tree,
                SessionCommandView::QueryMailbox { source, reply },
            );
            let found = i < mailbox.len();
            &&& after == control_move(
                actor,
                tree,
                SessionCommandView::QueryMailbox { source, reply },
            )
            &&& after.effects == seq![
                EffectView::Reply {
                    to: reply,
                    reply: ReplyView::Message(
                        if found {
                            Some(mailbox[i])
                        } else {
                            None
                        },
                    ),
                },
            ]
            &&& after.actor == (SessionActorView {
                session: SessionView {
                    mailbox: if found {
                        mailbox.remove(i)
                    } else {
                        mailbox
                    },
                    ..actor.session
                },
                ..actor
            })
            &&& after.tree == tree
            &&& after.next == ActorNextView::Continue
        }),
{
    lemma_first_admitted(actor.session.mailbox, source, i);
}

proof fn lemma_first_admitted(mailbox: Seq<MailboxMessageView>, source: MessageSource, i: int)
    requires
        0 <= i <= mailbox.len(),
        i < mailbox.len() ==> admits(source, mailbox[i]),
        forall|j: int| 0 <= j < i ==> !admits(source, #[trigger] mailbox[j]),
    ensures
        crate::wait::before_match(mailbox, source) == i,
    decreases mailbox.len(),
{
    if i > 0 {
        let rest = mailbox.drop_first();
        assert(!admits(source, mailbox[0]));
        assert forall|j: int| 0 <= j < i - 1 implies !admits(source, #[trigger] rest[j]) by {
            assert(rest[j] == mailbox[j + 1]);
        }
        if i < mailbox.len() {
            assert(rest[i - 1] == mailbox[i]);
        }
        lemma_first_admitted(rest, source, i - 1);
    }
}

/// A message that comes during a turn goes to the end of the mailbox, and nothing else
/// happens. So it is between turns where the session does not wait for it.
pub proof fn law_message_is_kept(
    actor: SessionActorView,
    tree: SessionTreeView,
    message: MailboxMessageView,
)
    ensures
        ({
            let command = SessionCommandView::MailboxMessage(message);
            let kept = SessionActorView {
                session: SessionView {
                    mailbox: actor.session.mailbox.push(message),
                    ..actor.session
                },
                ..actor
            };
            let now = control_move(actor, tree, command);
            let between = command_move(actor, tree, command);
            &&& now.actor == kept && now.tree == tree && now.effects.len() == 0 && now.next
                == ActorNextView::Continue
            &&& actor.session.suspended_wait is None ==> between.actor == kept && between.tree
                == tree && between.effects.len() == 0 && between.next == ActorNextView::Continue
        }),
{
}

/// A session is shown to the one who asks, and stays as it is.
pub proof fn law_snapshot_changes_nothing(
    actor: SessionActorView,
    tree: SessionTreeView,
    reply: ReplyId,
)
    ensures
        ({
            let command = SessionCommandView::Snapshot { reply };
            let after = command_move(actor, tree, command);
            &&& after == control_move(actor, tree, command)
            &&& after.actor == actor && after.tree == tree
            &&& after.effects == seq![EffectView::Snapshot { to: reply }]
            &&& after.next == ActorNextView::Continue
        }),
{
}

/// What of the commands waits for the end of a turn: a user message, a change of the session,
/// a result from outside, an answer to a question, the end of a refresh, and shutting down.
pub proof fn law_what_waits_for_the_end_of_a_turn(
    actor: SessionActorView,
    tree: SessionTreeView,
    command: SessionCommandView,
)
    ensures
        ({
            let after = control_move(actor, tree, command);
            let waits = command is UserMessage || command is ExitPlanMode || command
                is UpdateSessionLlm || command is CompactSession || command is ToolResult
                || command is InteractionResponse || command is SessionMemoryRefreshFinished
                || command is Shutdown;
            &&& waits ==> after.actor == (SessionActorView {
                deferred: actor.deferred.push(command),
                ..actor
            }) && after.tree == tree && after.effects.len() == 0
            &&& !waits ==> after.actor.deferred == actor.deferred
            &&& after.next == ActorNextView::Continue
            &&& after.actor.parent_id == actor.parent_id
        }),
        command_move(actor, tree, SessionCommandView::Shutdown).next == ActorNextView::Stop,
        command_move(actor, tree, SessionCommandView::Shutdown).actor == actor,
{
}

/// A result goes to the end of the history as it was prepared, marked as an error exactly
/// where it was one, and the turn goes on. The host sees the result of a wait in full.
pub proof fn law_recorded_result(
    actor: SessionActorView,
    tree: SessionTreeView,
    result: PendingResultView,
    prepared: Seq<char>,
    other: SessionId,
)
    ensures
        ({
            let session = actor.session;
            let after = result_recorded(actor, tree, result, prepared);
            let told = after.actor.session;
            let n = after.effects.len();
            &&& told.history == session.history.push(
                MessageView {
                    role: Role::Tool,
                    content: MessageContentView::ToolResult {
                        tool_use_id: result.tool_use_id,
                        output: prepared,
                        is_error: result.is_error,
                    },
                },
            )
            &&& told.state == SessionState::Streaming
            &&& result.from_wait ==> told.suspended_wait is None
            &&& !result.from_wait ==> told.suspended_wait == session.suspended_wait
            &&& told == (SessionView {
                history: told.history,
                state: told.state,
                suspended_wait: told.suspended_wait,
                ..session
            })
            &&& after.actor == (SessionActorView { session: told, ..actor })
            &&& result.from_wait ==> entry(after.tree.waits, session.id) is None
            &&& !result.from_wait ==> after.tree == tree
            &&& other != session.id ==> entry(after.tree.waits, other) == entry(tree.waits, other)
            &&& after.tree == (SessionTreeView { waits: after.tree.waits, ..tree })
            &&& after.next == (ActorNextView::RunTurn { stops: false })
            &&& n == (if result.from_wait {
                2int
            } else {
                1int
            })
            &&& after.effects[n - 1] == EffectView::Output(
                CoreOutputView::SessionStateChanged {
                    session_id: session.id,
                    state: SessionState::Streaming,
                },
            )
            &&& result.from_wait ==> (after.effects[0] matches EffectView::Output(
                CoreOutputView::ToolResult {
                    session_id,
                    tool_use_id,
                    tool_name,
                    content,
                    is_error,
                    duration_us,
                },
            ) && session_id == session.id && tool_use_id == result.tool_use_id && tool_name
                == "suspended_wait"@ && content == result.output && is_error == result.is_error
                && duration_us == 0)
        }),
{
    crate::table::law_entries(tree.waits, actor.session.id, actor.session.id, actor.session.id);
    crate::table::law_entries(tree.waits, actor.session.id, actor.session.id, other);
}

/// How the turn of a child ended is how the child ended: with its answer, or with what it
/// said last, or with the error.
pub proof fn law_end_of_a_child(
    actor: SessionActorView,
    tree: SessionTreeView,
    parent_id: SessionId,
    answer: Seq<char>,
    error: Seq<char>,
)
    requires
        actor.parent_id == Some(parent_id),
    ensures
        ({
            let finished = |status: ExitStatusView|
                seq![
                    EffectView::ChildFinished { session_id: actor.session.id, parent_id, status },
                ];
            &&& turn_over(actor, tree, TurnOutcomeView::Completed(Some(answer))).effects
                == finished(ExitStatusView::Success { output: answer })
            &&& last_said(actor.session.history) == Some(answer) ==> turn_over(
                actor,
                tree,
                TurnOutcomeView::Completed(None),
            ).effects == finished(ExitStatusView::Success { output: answer })
            &&& last_said(actor.session.history) is None ==> turn_over(
                actor,
                tree,
                TurnOutcomeView::Completed(None),
            ).effects == finished(ExitStatusView::Success { output: Seq::empty() })
            &&& turn_over(actor, tree, TurnOutcomeView::Failed(error)).effects == finished(
                ExitStatusView::Failed { error },
            )
            &&& turn_over(actor, tree, TurnOutcomeView::Cancelled).effects == finished(
                ExitStatusView::Cancelled,
            )
            &&& turn_over(actor, tree, TurnOutcomeView::Suspended).effects.len() == 0
            &&& turn_over(actor, tree, TurnOutcomeView::Cancelled).actor == (SessionActorView {
                session: SessionView { state: SessionState::Destroyed, ..actor.session },
                ..actor
            })
            &&& turn_over(actor, tree, TurnOutcomeView::Cancelled).tree == tree
        }),
{
}

/// What was said last is the last text of the assistant, be it alone or beside calls. What
/// others say or what tools give does not change it.
pub proof fn law_last_words(history: Seq<MessageView>, message: MessageView)
    ensures
        last_said(Seq::empty()) is None,
        message.role != Role::Assistant || message.content is ToolResult ==> last_said(
            history.push(message),
        ) == last_said(history),
        message.role == Role::Assistant ==> (message.content matches MessageContentView::Text(text)
            ==> last_said(history.push(message)) == Some(text)),
        message.role == Role::Assistant ==> (message.content matches MessageContentView::ToolUse {
            text,
            ..
        } ==> last_said(history.push(message)) == (if text is Some {
            text
        } else {
            last_said(history)
        })),
{
    assert(history.push(message).drop_last() =~= history);
    assert(history.push(message).last() == message);
}

/// A new session is made of what it was asked for: its configuration, its first messages
/// behind the prompt, its window. It rests, and nothing has happened in it.
pub proof fn law_new_session_is_what_was_asked_for(
    id: SessionId,
    init: SessionInitView,
    belt: ToolBeltView,
    instructions: Option<ProjectInstructionsView>,
    memory: SessionMemoryView,
    created_at: Seq<char>,
)
    ensures
        ({
            let made = new_session(id, init, belt, instructions, memory, created_at);
            let percent = init.auto_compact_threshold_percent;
            &&& made.id == id
            &&& made.created_at == created_at
            &&& made.memory == memory
            &&& made.max_context_window == init.max_context_window
            &&& made.config.system_prompt == init.system_prompt
            &&& made.config.working_directory == init.working_directory
            &&& made.config.plan_mode == init.plan_mode
            &&& made.config.prompt_behavior == init.prompt_behavior
            &&& made.config.prompt_memory_mode == init.prompt_memory_mode
            &&& made.config.agent_key == init.agent_key
            &&& made.config.team_key == init.team_key
            &&& made.config.model_profile == init.model_profile
            &&& made.config.session_group == init.session_group
            &&& made.config.skill_names.len() == init.skills.len()
            &&& forall|i: int|
                0 <= i < init.skills.len() ==> #[trigger] made.config.skill_names[i]
                    == init.skills[i].prompt.name
            &&& 1 <= made.config.auto_compact_threshold_percent <= 100
            &&& 1 <= percent <= 100 ==> made.config.auto_compact_threshold_percent == percent
            &&& percent == 0 ==> made.config.auto_compact_threshold_percent == 1
            &&& percent > 100 ==> made.config.auto_compact_threshold_percent == 100
            &&& made.auto_compact_threshold_percent == made.config.auto_compact_threshold_percent
            &&& init.status_report_min_tool_rounds > 0
                ==> made.config.status_report_min_tool_rounds == init.status_report_min_tool_rounds
            &&& made.config.status_report_min_tool_rounds > 0
            &&& made.system_prompt matches Some(prompt)
            &&& made.history.len() == 1 + init.initial_messages.len()
            &&& made.history[0] == (MessageView {
                role: Role::System,
                content: MessageContentView::Text(prompt),
            })
            &&& made.history.skip(1) == init.initial_messages
            &&& init.session_group matches Some(group) ==> made.python_group == group
            &&& made.state == SessionState::Idle
            &&& made.mailbox.len() == 0
            &&& made.suspended_wait is None
            &&& made.status_report is None
            &&& made.last_permission is None
            &&& made.last_input_tokens is None
            &&& made.last_prompt_cache_tokens is None
            &&& !made.cancel_armed && !made.interrupted && !made.approval_pending
            &&& made.compaction_generation == 0
            &&& made.current_turn_tool_rounds == 0
        }),
{
    let made = new_session(id, init, belt, instructions, memory, created_at);
    assert(made.history.skip(1) =~= init.initial_messages);
}

/// Making the tools and the prompt of a new session once more, from the same, changes nothing.
/// Whatever else a session has stays when they are made anew, and so does all that was said.
pub proof fn law_made_anew_it_is_the_same(
    id: SessionId,
    init: SessionInitView,
    belt: ToolBeltView,
    instructions: Option<ProjectInstructionsView>,
    memory: SessionMemoryView,
    created_at: Seq<char>,
    session: SessionView,
)
    ensures
        ({
            let made = new_session(id, init, belt, instructions, memory, created_at);
            rebuilt(made, belt, init.skills, instructions) == made
        }),
        ({
            let after = rebuilt(session, belt, init.skills, instructions);
            let had_prompt = session.history.len() > 0 && session.history[0].role == Role::System;
            &&& after == (SessionView {
                registry: after.registry,
                tools: after.tools,
                system_prompt: after.system_prompt,
                history: after.history,
                ..session
            })
            &&& after.system_prompt matches Some(prompt)
            &&& after.history.len() > 0
            &&& after.history[0] == (MessageView {
                role: Role::System,
                content: MessageContentView::Text(prompt),
            })
            &&& had_prompt ==> after.history.skip(1) == session.history.skip(1)
            &&& !had_prompt ==> after.history.skip(1) == session.history
        }),
{
    let made = new_session(id, init, belt, instructions, memory, created_at);
    assert(rebuilt(made, belt, init.skills, instructions).history =~= made.history);
    let after = rebuilt(session, belt, init.skills, instructions);
    if session.history.len() > 0 && session.history[0].role == Role::System {
        assert(after.history.skip(1) =~= session.history.skip(1));
    } else {
        assert(after.history.skip(1) =~= session.history);
    }
}

/// What the tools of a session are: those that observe, those that act unless it only plans,
/// and those of its skills.
pub proof fn law_tools_of_a_session(
    belt: ToolBeltView,
    plan_mode: bool,
    skills: Seq<SkillView>,
    tool: ToolSpecView,
)
    ensures
        belt.observing.contains(tool) ==> session_tools(belt, plan_mode, skills).contains(tool),
        belt.acting.contains(tool) && !plan_mode ==> session_tools(
            belt,
            plan_mode,
            skills,
        ).contains(tool),
        (exists|i: int| 0 <= i < skills.len() && (#[trigger] skills[i]).tools.contains(tool))
            ==> session_tools(belt, plan_mode, skills).contains(tool),
        session_tools(belt, plan_mode, skills).contains(tool) ==> {
            ||| belt.observing.contains(tool)
            ||| belt.acting.contains(tool) && !plan_mode
            ||| exists|i: int| 0 <= i < skills.len() && (#[trigger] skills[i]).tools.contains(tool)
        },
{
    lemma_tools_of_skills(skills, tool);
    let own = if plan_mode {
        belt.observing
    } else {
        belt.observing + belt.acting
    };
    let of_skills = crate::context::skill_tools(skills);
    lemma_in_either(belt.observing, belt.acting, tool);
    lemma_in_either(own, of_skills, tool);
}

proof fn lemma_in_either<T>(a: Seq<T>, b: Seq<T>, x: T)
    ensures
        (a + b).contains(x) <==> a.contains(x) || b.contains(x),
{
    if a.contains(x) {
        let i = choose|i: int| 0 <= i < a.len() && a[i] == x;
        assert((a + b)[i] == x);
    }
    if b.contains(x) {
        let i = choose|i: int| 0 <= i < b.len() && b[i] == x;
        assert((a + b)[a.len() + i] == x);
    }
    if (a + b).contains(x) {
        let i = choose|i: int| 0 <= i < (a + b).len() && (a + b)[i] == x;
        if i >= a.len() {
            assert(b[i - a.len()] == x);
        } else {
            assert(a[i] == x);
        }
    }
}

proof fn lemma_tools_of_skills(skills: Seq<SkillView>, tool: ToolSpecView)
    ensures
        crate::context::skill_tools(skills).contains(tool) <==> exists|i: int|
            0 <= i < skills.len() && (#[trigger] skills[i]).tools.contains(tool),
    decreases skills.len(),
{
    if skills.len() > 0 {
        let front = skills.drop_last();
        lemma_tools_of_skills(front, tool);
        lemma_in_either(crate::context::skill_tools(front), skills.last().tools, tool);
        if crate::context::skill_tools(front).contains(tool) {
            let i = choose|i: int|
                0 <= i < front.len() && (#[trigger] front[i]).tools.contains(tool);
            assert(skills[i].tools.contains(tool));
        }
        if skills.last().tools.contains(tool) {
            assert(skills[skills.len() - 1].tools.contains(tool));
        }
        if exists|i: int| 0 <= i < skills.len() && (#[trigger] skills[i]).tools.contains(tool) {
            let i = choose|i: int|
                0 <= i < skills.len() && (#[trigger] skills[i]).tools.contains(tool);
            if i < front.len() {
                assert(front[i].tools.contains(tool));
            }
        }
    }
}

/// Which tools the model is told of: every one, unless another of its name comes after it, or
/// it is one for the web that is not set up. It is told of no other.
pub proof fn law_advertised_tools(tools: Seq<ToolSpecView>, web_configured: bool, i: int)
    requires
        0 <= i < tools.len(),
    ensures
        (forall|j: int|
            i < j < tools.len() ==> (#[trigger] tools[j]).definition.name
                != tools[i].definition.name) && (web_configured || (tools[i].definition.name
            != "web_search"@ && tools[i].definition.name != "web_open"@)) ==> advertised(
            tools,
            web_configured,
        ).contains(tools[i].definition),
        forall|k: int|
            0 <= k < advertised(tools, web_configured).len() ==> {
                let told = #[trigger] advertised(tools, web_configured)[k];
                &&& web_configured || (told.name != "web_search"@ && told.name != "web_open"@)
                &&& exists|j: int| 0 <= j < tools.len() && (#[trigger] tools[j]).definition == told
            },
    decreases tools.len(),
{
    let rest = tools.drop_first();
    let later = advertised(rest, web_configured);
    let all = advertised(tools, web_configured);
    if i > 0 {
        law_advertised_tools(rest, web_configured, i - 1);
        assert(rest[i - 1] == tools[i]);
        if forall|j: int|
            i < j < tools.len() ==> (#[trigger] tools[j]).definition.name
                != tools[i].definition.name {
            assert forall|j: int| i - 1 < j < rest.len() implies (
            #[trigger] rest[j]).definition.name != rest[i - 1].definition.name by {
                assert(rest[j] == tools[j + 1]);
            }
        }
        if later.contains(tools[i].definition) {
            lemma_in_either(seq![tools[0].definition], later, tools[i].definition);
        }
    } else {
        if rest.len() > 0 {
            law_advertised_tools(rest, web_configured, 0);
        }
        if forall|j: int|
            i < j < tools.len() ==> (#[trigger] tools[j]).definition.name
                != tools[i].definition.name {
            if crate::context::names_tool(rest, tools[0].definition.name) {
                let j = choose|j: int|
                    0 <= j < rest.len() && (#[trigger] rest[j]).definition.name
                        == tools[0].definition.name;
                assert(tools[j + 1].definition.name == tools[0].definition.name);
            }
            if web_configured || (tools[0].definition.name != "web_search"@
                && tools[0].definition.name != "web_open"@) {
                assert(all[0] == tools[0].definition);
            }
        }
    }
    assert forall|k: int| 0 <= k < all.len() implies {
        let told = #[trigger] all[k];
        &&& web_configured || (told.name != "web_search"@ && told.name != "web_open"@)
        &&& exists|j: int| 0 <= j < tools.len() && (#[trigger] tools[j]).definition == told
    } by {
        let shift: int = if all.len() > later.len() {
            1
        } else {
            0
        };
        if k >= shift {
            assert(all[k] == later[k - shift]);
            let j = choose|j: int|
                0 <= j < rest.len() && (#[trigger] rest[j]).definition == later[k - shift];
            assert(tools[j + 1].definition == all[k]);
        } else {
            assert(tools[0].definition == all[k]);
        }
    }
}

/// What the memory adds goes behind the system prompt, which stays, and all other messages
/// go to the model as they are.
pub proof fn law_memory_goes_behind_the_prompt(
    messages: Seq<MessageView>,
    suffix: Option<Seq<char>>,
    i: int,
)
    requires
        0 <= i < messages.len(),
    ensures
        with_suffix(messages, suffix).len() == messages.len(),
        suffix is None || i > 0 || messages[0].role != Role::System || !(messages[0].content
            is Text) ==> with_suffix(messages, suffix)[i] == messages[i],
        suffix matches Some(added) ==> (messages[0].role == Role::System ==> (
        messages[0].content matches MessageContentView::Text(prompt) ==> {
            &&& with_suffix(messages, suffix)[0].role == Role::System
            &&& with_suffix(messages, suffix)[0].content matches MessageContentView::Text(longer)
            &&& begins_with(longer, prompt)
            &&& ends_with(longer, added)
        })),
{
    if let Some(added) = suffix {
        if let MessageContentView::Text(prompt) = messages[0].content {
            let longer = prompt + "\n\n"@ + added;
            assert(longer.take(prompt.len() as int) =~= prompt);
            assert(longer.skip(longer.len() - added.len()) =~= added);
        }
    }
}

/// A report is sent when it changes, and only then.
pub proof fn law_report_is_sent_when_it_changes(
    session: SessionView,
    report: Option<SessionStatusReportView>,
)
    ensures
        session.status_report == report ==> report_outputs(session, report).len() == 0,
        session.status_report != report ==> report_outputs(session, report) == seq![
            CoreOutputView::SessionStatusReport { session_id: session.id, report },
        ],
{
}

/// A refresh begins exactly where the memory is in use, no other refresh is under way,
/// something was said and it is needed. It is then under way and noted as tried; otherwise it
/// is noted as skipped. Nothing else of the session changes.
pub proof fn law_refresh_begins_where_it_is_needed(session: SessionView, needed: bool)
    ensures
        ({
            let after = refresh_considered(session, needed);
            let begins = session.memory.enabled && !session.memory.refresh_in_flight
                && session.history.len() > 0 && needed;
            &&& (refresh_obstacle(session, needed) is None) == begins
            &&& after == (SessionView {
                memory: after.memory,
                diagnostics: after.diagnostics,
                ..session
            })
            &&& after.memory == (SessionMemoryView {
                refresh_in_flight: after.memory.refresh_in_flight,
                ..session.memory
            })
            &&& after.memory.refresh_in_flight == (begins || session.memory.refresh_in_flight)
            &&& after.diagnostics matches Some(noted)
            &&& noted.refresh_attempted == begins
            &&& begins == (noted.refresh_reason is None)
            &&& !begins ==> noted.refresh_status == MemoryStatus::Skipped
            &&& begins ==> noted.refresh_status == MemoryStatus::NotRun
            &&& session.diagnostics matches Some(before) ==> noted.compaction_status
                == before.compaction_status && noted.compaction_source == before.compaction_source
                && noted.compaction_reason == before.compaction_reason
                && noted.compaction_tail_start == before.compaction_tail_start
                && noted.refreshed_index == before.refreshed_index && noted.refreshed_at
                == before.refreshed_at
        }),
{
}

/// What a refresh found is kept, and what it did not find stays as it was. It was a success
/// exactly where it says how far the summary goes. Nothing else of the session changes.
pub proof fn law_refresh_is_kept(
    session: SessionView,
    index: Option<usize>,
    refreshed_at: Option<Seq<char>>,
    summary: Option<Seq<char>>,
)
    ensures
        ({
            let after = refresh_finished(session, index, refreshed_at, summary);
            &&& after == (SessionView {
                memory: after.memory,
                diagnostics: after.diagnostics,
                ..session
            })
            &&& !after.memory.refresh_in_flight
            &&& after.memory.enabled == session.memory.enabled
            &&& after.memory.last_summarized_message_index == (if index is Some {
                index
            } else {
                session.memory.last_summarized_message_index
            })
            &&& after.memory.last_refresh_at == (if refreshed_at is Some {
                refreshed_at
            } else {
                session.memory.last_refresh_at
            })
            &&& after.memory.listing_summary == (if summary is Some {
                summary
            } else {
                session.memory.listing_summary
            })
            &&& after.diagnostics matches Some(noted)
            &&& noted.refresh_attempted
            &&& index is Some ==> noted.refresh_status == MemoryStatus::Succeeded
                && noted.refresh_reason is None && noted.refreshed_index == index
            &&& index is None ==> noted.refresh_status == MemoryStatus::FailedBestEffort
                && noted.refresh_reason is Some
            &&& refreshed_at is Some ==> noted.refreshed_at == refreshed_at
            &&& session.diagnostics matches Some(before) ==> noted.compaction_status
                == before.compaction_status && noted.compaction_source == before.compaction_source
                && noted.compaction_reason == before.compaction_reason
                && noted.compaction_tail_start == before.compaction_tail_start
        }),
{
}

/// A result that comes from outside is taken by a session that waits for one, as the result of
/// the call that it names: what it says and whether it is an error. Another session leaves it.
pub proof fn law_result_from_outside(
    actor: SessionActorView,
    tree: SessionTreeView,
    tool_use_id: Seq<char>,
    result: ToolOutcomeView,
)
    requires
        actor.session.suspended_wait is None,
    ensures
        ({
            let after = command_move(
                actor,
                tree,
                SessionCommandView::ToolResult { tool_use_id, result },
            );
            let taken = actor.session.state == SessionState::AwaitingToolResult;
            &&& after.actor == actor && after.tree == tree && after.effects.len() == 0
            &&& !taken ==> after.next == ActorNextView::Continue
            &&& taken ==> {
                &&& after.next matches ActorNextView::PrepareResult(pending)
                &&& pending.tool_use_id == tool_use_id
                &&& !pending.from_wait
                &&& pending.is_error <==> !(result is Success)
                &&& result matches ToolOutcomeView::Success { output } ==> pending.output == output
                &&& result matches ToolOutcomeView::Error { message } ==> pending.output == message
            }
        }),
{
}

/// What a session knows of its tools is what they were registered with. A session without a
/// group of its own shares its python state with nobody.
pub proof fn law_registry_of_a_session(
    id: SessionId,
    init: SessionInitView,
    belt: ToolBeltView,
    instructions: Option<ProjectInstructionsView>,
    memory: SessionMemoryView,
    created_at: Seq<char>,
    i: int,
)
    ensures
        ({
            let made = new_session(id, init, belt, instructions, memory, created_at);
            let tools = session_tools(belt, init.plan_mode, init.skills);
            &&& made.registry.len() == tools.len()
            &&& 0 <= i < tools.len() ==> {
                &&& made.registry[i].name == tools[i].definition.name
                &&& made.registry[i].interactive == tools[i].interactive
                &&& made.registry[i].read_only == tools[i].definition.read_only
                &&& made.registry[i].idempotent == tools[i].definition.idempotent
            }
            &&& made.tools == advertised(tools, belt.web_configured)
            &&& init.session_group is None ==> made.python_group == uuid_text(id.0)
        }),
{
}

/// A session that was brought back can work at once: it has the tools and the prompt that a new
/// session of its configuration has, the window that was found for it, and nothing that was
/// under way.
pub proof fn law_brought_back_session_can_work(
    saved: SavedSessionView,
    skills: Seq<SkillView>,
    max_context_window: Option<u64>,
    belt: ToolBeltView,
    instructions: Option<ProjectInstructionsView>,
    memory: SessionMemoryView,
)
    ensures
        ({
            let back = restored_session(
                saved,
                skills,
                max_context_window,
                belt,
                instructions,
                memory,
            );
            let anew = rebuilt(back, belt, skills, instructions);
            &&& back.tools == anew.tools
            &&& back.registry == anew.registry
            &&& back.system_prompt == anew.system_prompt
            &&& back.id == saved.session_id
            &&& back.max_context_window == max_context_window
            &&& back.auto_compact_threshold_percent == saved.config.auto_compact_threshold_percent
            &&& saved.config.session_group matches Some(group) ==> back.python_group == group
            &&& back.mailbox.len() == 0
            &&& back.suspended_wait is None
            &&& !back.cancel_armed && !back.interrupted
            &&& back.current_turn_tool_rounds == 0
            &&& !memory.refresh_in_flight ==> !back.memory.refresh_in_flight
        }),
{
}

/// The end of a refresh is noted with what it found, and saved. An answer that nobody asked for
/// does nothing between turns.
pub proof fn law_end_of_a_refresh_is_noted(
    actor: SessionActorView,
    tree: SessionTreeView,
    last_summarized_message_index: Option<usize>,
    refreshed_at: Option<Seq<char>>,
    listing_summary: Option<Seq<char>>,
    response: InteractionResponseView,
)
    ensures
        ({
            let after = command_move(
                actor,
                tree,
                SessionCommandView::SessionMemoryRefreshFinished {
                    last_summarized_message_index,
                    refreshed_at,
                    listing_summary,
                },
            );
            let idle = command_move(actor, tree, SessionCommandView::InteractionResponse(response));
            &&& after.actor == (SessionActorView {
                session: refresh_finished(
                    actor.session,
                    last_summarized_message_index,
                    refreshed_at,
                    listing_summary,
                ),
                ..actor
            })
            &&& after.tree == tree
            &&& after.effects == seq![EffectView::Checkpoint]
            &&& after.next == ActorNextView::Continue
            &&& idle.actor == actor && idle.tree == tree && idle.effects.len() == 0 && idle.next
                == ActorNextView::Continue
        }),
{
}

/// Why a refresh does not begin: first that the memory is not in use, then that a refresh is
/// under way, then that nothing was said, then that it is not needed. One that brought no
/// summary says so.
pub proof fn law_why_there_is_no_refresh(
    session: SessionView,
    needed: bool,
    refreshed_at: Option<Seq<char>>,
    summary: Option<Seq<char>>,
)
    ensures
        !session.memory.enabled ==> refresh_obstacle(session, needed) == Some(
            MemoryReason::Disabled,
        ),
        session.memory.enabled && session.memory.refresh_in_flight ==> refresh_obstacle(
            session,
            needed,
        ) == Some(MemoryReason::NotAttempted),
        session.memory.enabled && !session.memory.refresh_in_flight && session.history.len() == 0
            ==> refresh_obstacle(session, needed) == Some(MemoryReason::NoActivityYet),
        session.memory.enabled && !session.memory.refresh_in_flight && session.history.len() > 0
            && !needed ==> refresh_obstacle(session, needed) == Some(
            MemoryReason::RefreshNotNeeded,
        ),
        refresh_obstacle(session, needed) is Some ==> (refresh_considered(
            session,
            needed,
        ).diagnostics matches Some(noted) && noted.refresh_reason == refresh_obstacle(
            session,
            needed,
        )),
        (refresh_finished(session, None, refreshed_at, summary).diagnostics matches Some(noted)
            && noted.refresh_reason == Some(MemoryReason::MissingSummary)),
{
}

/// Tools come in the order in which they were registered: those that observe, those that act,
/// and those of the skills in the order of the skills.
pub proof fn law_order_of_tools(
    belt: ToolBeltView,
    skills: Seq<SkillView>,
    skill: SkillView,
    tools: Seq<ToolSpecView>,
)
    ensures
        session_tools(belt, true, Seq::empty()) == belt.observing,
        session_tools(belt, false, Seq::empty()) == belt.observing + belt.acting,
        session_tools(belt, true, skills.push(skill)) == session_tools(belt, true, skills)
            + skill.tools,
        session_tools(belt, false, skills.push(skill)) == session_tools(belt, false, skills)
            + skill.tools,
        (forall|i: int, j: int|
            0 <= i < j < tools.len() ==> (#[trigger] tools[i]).definition.name != (
            #[trigger] tools[j]).definition.name) ==> advertised(tools, true)
            == tools.map_values(|t: ToolSpecView| t.definition),
    decreases tools.len(),
{
    let none = Seq::<SkillView>::empty();
    assert(crate::context::skill_tools(none) =~= Seq::empty());
    assert(session_tools(belt, true, none) =~= belt.observing);
    assert(session_tools(belt, false, none) =~= belt.observing + belt.acting);
    assert(skills.push(skill).drop_last() =~= skills);
    assert(skills.push(skill).last() == skill);
    assert(session_tools(belt, true, skills.push(skill)) =~= session_tools(belt, true, skills)
        + skill.tools);
    assert(session_tools(belt, false, skills.push(skill)) =~= session_tools(belt, false, skills)
        + skill.tools);
    let definitions = tools.map_values(|t: ToolSpecView| t.definition);
    if tools.len() == 0 {
        assert(advertised(tools, true) =~= definitions);
    } else if forall|i: int, j: int|
        0 <= i < j < tools.len() ==> (#[trigger] tools[i]).definition.name != (
        #[trigger] tools[j]).definition.name {
        let rest = tools.drop_first();
        assert forall|i: int, j: int| 0 <= i < j < rest.len() implies (
        #[trigger] rest[i]).definition.name != (#[trigger] rest[j]).definition.name by {
            assert(rest[i] == tools[i + 1] && rest[j] == tools[j + 1]);
        }
        law_order_of_tools(belt, skills, skill, rest);
        if crate::context::names_tool(rest, tools[0].definition.name) {
            let j = choose|j: int|
                0 <= j < rest.len() && (#[trigger] rest[j]).definition.name
                    == tools[0].definition.name;
            assert(tools[j + 1] == rest[j]);
        }
        assert(advertised(tools, true) =~= definitions);
    }
}

/// What a session remembers of its summary is saved and comes back: whether it is in use, how
/// far it goes, and how it reads. What was not saved is what was found.
pub proof fn law_memory_comes_back(
    session: SessionView,
    saved: SavedSessionView,
    state: SessionState,
    skills: Seq<SkillView>,
    max_context_window: Option<u64>,
    belt: ToolBeltView,
    instructions: Option<ProjectInstructionsView>,
    memory: SessionMemoryView,
)
    ensures
        ({
            let back = restored_session(
                saved_of(session, state),
                skills,
                max_context_window,
                belt,
                instructions,
                memory,
            );
            &&& back.memory == (SessionMemoryView {
                enabled: session.memory.enabled,
                last_summarized_message_index: session.memory.last_summarized_message_index,
                listing_summary: session.memory.listing_summary,
                ..memory
            })
            &&& back.config == (SessionConfigView {
                skill_names: back.config.skill_names,
                ..session.config
            })
            &&& back.config.skill_names.len() == skills.len()
        }),
        saved.memory is None ==> restored_session(
            saved,
            skills,
            max_context_window,
            belt,
            instructions,
            memory,
        ).memory == memory,
{
}

} // verus!
