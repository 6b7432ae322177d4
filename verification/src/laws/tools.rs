//! What the run of a tool is for: permission is asked for what the call really touches, what
//! the rules say is done, and the tool's own outcome is what the turn gets.

use vstd::prelude::*;

use crate::arguments::{member_value, ArgumentValueView, ArgumentsView, MemberView};
use crate::channel::{CoreOutputView, InteractionRequestView, ToolOutcomeView};
use crate::context::SessionView;
use crate::effect::EffectView;
use crate::filesystem::{is_absolute, path_join, OverlayFilesystem, SessionFilesystem};
use crate::message::PendingToolCallView;
use crate::permissions::{
    PermissionDecision, PermissionOutcomeView, PermissionResourceView, PermissionScope,
    PermissionVerdictView,
};
use crate::session::{uuid_text, SessionId, SessionState};
use crate::session_tree::SessionTreeView;
use crate::text;
use crate::tool_run::{
    tool_awaits, tool_begun, tool_move, ApprovalChoice, ToolRunActionView, ToolRunEventView,
    ToolRunPhase, ToolRunView,
};
use crate::tools::{registered, ToolReturnView};
use crate::turn::Host;

verus! {

broadcast use vstd::seq::group_seq_axioms;

proof fn lemma_names_of_tools()
    ensures
        "read_file"@ != "find"@,
        "read_file"@ != "bash"@,
        "read_file"@ != "signal"@,
        "read_file"@ != "apply_patch"@,
        "apply_patch"@ != "find"@,
        "apply_patch"@ != "bash"@,
        "apply_patch"@ != "signal"@,
        "find"@ != "bash"@,
        "find"@ != "signal"@,
        "bash"@ != "signal"@,
        "spawn"@ != "read_file"@ && "spawn"@ != "apply_patch"@ && "spawn"@ != "find"@ && "spawn"@
            != "bash"@ && "spawn"@ != "signal"@,
        "wait_child"@ != "read_file"@ && "wait_child"@ != "apply_patch"@ && "wait_child"@
            != "find"@ && "wait_child"@ != "bash"@ && "wait_child"@ != "signal"@ && "wait_child"@
            != "spawn"@ && "wait_child"@ != "recv_message"@,
        "recv_message"@ != "spawn"@,
{
    reveal_strlit("read_file");
    reveal_strlit("apply_patch");
    reveal_strlit("find");
    reveal_strlit("bash");
    reveal_strlit("signal");
    reveal_strlit("spawn");
    reveal_strlit("wait_child");
    reveal_strlit("recv_message");
    assert("read_file"@.len() == 9 && "apply_patch"@.len() == 11 && "find"@.len() == 4);
    assert("bash"@.len() == 4 && "signal"@.len() == 6 && "spawn"@.len() == 5);
    assert("wait_child"@.len() == 10 && "recv_message"@.len() == 12);
    assert("find"@[0] != "bash"@[0]);
}

/// The place that permission is asked for, of a path that a call names: where it leads to in
/// the files of the session. A path that leads out of them is named as it is, from the working
/// directory on.
pub open spec fn place_asked_for(
    filesystem: OverlayFilesystem,
    working_directory: Seq<char>,
    path: Seq<char>,
) -> Seq<char> {
    match filesystem.resolves(path) {
        Ok(place) => place,
        Err(_) => if is_absolute(path) {
            path
        } else {
            path_join(working_directory, path)
        },
    }
}

/// Permission is asked for the tool that is called and for what the call touches: the file
/// that is read or written, the directory that is searched, the command that is run, the
/// session that is signalled.
pub proof fn law_permission_is_asked_for_what_is_touched(
    host: Host,
    session: SessionView,
    tree: SessionTreeView,
    call: PendingToolCallView,
    filesystem: OverlayFilesystem,
    named: Seq<char>,
)
    requires
        !session.interrupted,
        registered(session.registry, call.tool_name) is Some,
    ensures
        ({
            let begun = tool_begun(host, session, tree, call, filesystem);
            let place = place_asked_for(filesystem, session.config.working_directory, named);
            &&& begun.action matches ToolRunActionView::CheckPermission { request, local }
            &&& request.tool_name == call.tool_name
            &&& call.tool_name == "read_file"@ && call.arguments.text("file_path"@) == Some(named)
                ==> request.resource == PermissionResourceView::Path { path: place }
            &&& call.tool_name == "apply_patch"@ && call.arguments.text("file_path"@) == Some(
                named,
            ) ==> request.resource == PermissionResourceView::Path { path: place }
            &&& call.tool_name == "find"@ && call.arguments.text("path"@) == Some(named)
                ==> request.resource == PermissionResourceView::Path { path: place }
            &&& call.tool_name == "bash"@ && call.arguments.text("command"@) == Some(named)
                ==> request.resource == PermissionResourceView::Command { command: named }
            &&& call.tool_name == "signal"@ && call.arguments.text("session_id"@) == Some(named)
                ==> request.resource == PermissionResourceView::Process { target: named }
            &&& call.tool_name == "spawn"@ || call.tool_name == "wait_child"@ ==> request.resource
                == PermissionResourceView::Agent { target: call.tool_name }
        }),
{
    lemma_names_of_tools();
}

/// Two calls that touch different places ask for different permissions.
pub proof fn law_other_files_are_other_permissions(
    host: Host,
    session: SessionView,
    tree: SessionTreeView,
    first: PendingToolCallView,
    second: PendingToolCallView,
    filesystem: OverlayFilesystem,
    one: Seq<char>,
    other: Seq<char>,
)
    requires
        !session.interrupted,
        registered(session.registry, first.tool_name) is Some,
        first.tool_name == second.tool_name,
        first.tool_name == "read_file"@ || first.tool_name == "apply_patch"@,
        first.arguments.text("file_path"@) == Some(one),
        second.arguments.text("file_path"@) == Some(other),
        filesystem.resolves(one) is Ok,
        filesystem.resolves(other) is Ok,
        filesystem.resolves(one) != filesystem.resolves(other),
    ensures
        tool_begun(host, session, tree, first, filesystem).action != tool_begun(
            host,
            session,
            tree,
            second,
            filesystem,
        ).action,
{
    law_permission_is_asked_for_what_is_touched(host, session, tree, first, filesystem, one);
    law_permission_is_asked_for_what_is_touched(host, session, tree, second, filesystem, other);
}

/// What a call is taken to do: reading and searching is reading, a patch writes, the shell
/// executes, a signal controls other sessions, and a tool that is not known to be harmless
/// writes.
pub proof fn law_scope_of_a_call(
    host: Host,
    session: SessionView,
    tree: SessionTreeView,
    call: PendingToolCallView,
    filesystem: OverlayFilesystem,
)
    requires
        !session.interrupted,
        registered(session.registry, call.tool_name) is Some,
    ensures
        ({
            let tool = registered(session.registry, call.tool_name)->0;
            let begun = tool_begun(host, session, tree, call, filesystem);
            &&& begun.action matches ToolRunActionView::CheckPermission { request, local }
            &&& call.tool_name == "bash"@ <==> request.scope == PermissionScope::Execute
            &&& call.tool_name == "signal"@ <==> request.scope == PermissionScope::ProcessControl
            &&& call.tool_name == "spawn"@ || call.tool_name == "wait_child"@ ==> request.scope
                == PermissionScope::AgentControl
            &&& call.tool_name == "read_file"@ || call.tool_name == "find"@ ==> request.scope
                == PermissionScope::Read
            &&& call.tool_name == "apply_patch"@ ==> request.scope == PermissionScope::Write
            &&& request.scope == PermissionScope::Write && call.tool_name != "apply_patch"@
                ==> !tool.read_only
            &&& request.scope == PermissionScope::Read ==> tool.read_only || call.tool_name
                == "read_file"@ || call.tool_name == "find"@ || call.tool_name == "send_message"@
                || call.tool_name == "recv_message"@ || call.tool_name == "ask_user"@
                || call.tool_name == "plan"@
            &&& call.tool_name != "bash"@ ==> (local matches Some(local) && local.decision
                == PermissionDecision::Defer)
            &&& call.tool_name == "bash"@ ==> (call.arguments.text("command"@) matches Some(
                command,
            ) ==> (local matches Some(local) && (local.decision == PermissionDecision::Deny
                <==> "rm -rf /"@.is_prefix_of(text::trimmed(command)))))
        }),
{
    lemma_names_of_tools();
}

/// A session that was stopped begins no tool, an unknown tool is an error that names it, and a
/// tool that is begun can be told to stop.
pub proof fn law_beginning_of_a_tool(
    host: Host,
    session: SessionView,
    tree: SessionTreeView,
    call: PendingToolCallView,
    filesystem: OverlayFilesystem,
)
    ensures
        ({
            let begun = tool_begun(host, session, tree, call, filesystem);
            &&& session.interrupted ==> begun.action == ToolRunActionView::Finished(
                ToolOutcomeView::Cancelled,
            ) && begun.session == session
            &&& !session.interrupted ==> begun.session == (SessionView {
                cancel_armed: true,
                ..session
            })
            &&& !session.interrupted && registered(session.registry, call.tool_name) is None
                ==> begun.action == ToolRunActionView::Finished(
                ToolOutcomeView::Error { message: "unknown tool: "@ + call.tool_name },
            )
            &&& begun.run.call == call
            &&& begun.run.host == host
            &&& begun.tree == tree
            &&& begun.effects.len() == 0
            &&& !session.interrupted ==> (registered(session.registry, call.tool_name)
                matches Some(tool) ==> begun.run.interactive == tool.interactive
                && begun.run.phase == ToolRunPhase::Checking)
        }),
{
}

/// What a tool returns is the outcome: its output where it succeeded, its error where it
/// failed.
pub proof fn law_outcome_is_that_of_the_tool(
    run: ToolRunView,
    session: SessionView,
    tree: SessionTreeView,
    edges: Seq<(SessionId, SessionId)>,
    now_ms: u64,
    returned: ToolReturnView,
)
    requires
        tool_awaits(run, ToolRunEventView::Returned(returned)),
    ensures
        ({
            let after = tool_move(
                run,
                session,
                tree,
                edges,
                now_ms,
                ToolRunEventView::Returned(returned),
            );
            &&& after.action matches ToolRunActionView::Finished(outcome)
            &&& outcome is Success <==> (returned matches ToolReturnView::Output {
                is_error,
                ..
            } && !is_error)
            &&& outcome is Cancelled <==> returned is Cancelled
            &&& returned matches ToolReturnView::Output { content, is_error } ==> {
                &&& !is_error ==> outcome == ToolOutcomeView::Success { output: content }
                &&& is_error ==> outcome == ToolOutcomeView::Error { message: content }
            }
            &&& returned matches ToolReturnView::Failed { error } ==> outcome
                == ToolOutcomeView::Error { message: error }
            &&& returned matches ToolReturnView::Panicked { error } ==> outcome
                == ToolOutcomeView::Error { message: "tool task panicked: "@ + error }
        }),
{
}

/// What the permission rules say is done: a call that is allowed goes on, one that is denied
/// is refused with the reason, and one that needs approval is put to the user, word for word,
/// while the session is paused.
pub proof fn law_permission_rules_are_obeyed(
    run: ToolRunView,
    session: SessionView,
    tree: SessionTreeView,
    edges: Seq<(SessionId, SessionId)>,
    now_ms: u64,
    verdict: PermissionVerdictView,
)
    requires
        tool_awaits(run, ToolRunEventView::Permission(verdict)),
    ensures
        ({
            let after = tool_move(
                run,
                session,
                tree,
                edges,
                now_ms,
                ToolRunEventView::Permission(verdict),
            );
            &&& verdict is Allowed && run.call.tool_name != "spawn"@ && run.call.tool_name
                != "wait_child"@ && run.call.tool_name != "recv_message"@ ==> after.action
                == ToolRunActionView::Execute { interactive: run.interactive } && after.run.phase
                == ToolRunPhase::Executing && after.effects.len() == 0
            &&& verdict matches PermissionVerdictView::Denied { reason } ==> after.action
                == ToolRunActionView::Finished(
                ToolOutcomeView::Error { message: "permission denied: "@ + reason },
            )
            &&& verdict matches PermissionVerdictView::NeedsApproval { request, reason } ==> {
                &&& after.action is AwaitApproval
                &&& after.run.phase == ToolRunPhase::Approving
                &&& after.run.reason == reason
                &&& after.run.call == run.call
                &&& after.session.state == SessionState::Paused
                &&& after.session.approval_pending
                &&& after.effects.contains(question(session.id, request))
                &&& after.effects.contains(state_change(session.id, SessionState::Paused))
            }
            &&& !(verdict is NeedsApproval) ==> after.session.approval_pending
                == session.approval_pending
        }),
{
    let after = tool_move(
        run,
        session,
        tree,
        edges,
        now_ms,
        ToolRunEventView::Permission(verdict),
    );
    if let PermissionVerdictView::NeedsApproval { request, reason } = verdict {
        if run.host == Host::Actor {
            assert(after.effects[0] == question(session.id, request));
            assert(after.effects[1] == state_change(session.id, SessionState::Paused));
        } else {
            assert(after.effects[1] == question(session.id, request));
            assert(after.effects[0] == state_change(session.id, SessionState::Paused));
        }
    }
}

/// A question to the user.
pub open spec fn question(session_id: SessionId, request: InteractionRequestView) -> EffectView {
    EffectView::Output(CoreOutputView::InteractionNeeded { session_id, request })
}

/// The news of a state.
pub open spec fn state_change(session_id: SessionId, state: SessionState) -> EffectView {
    EffectView::Output(CoreOutputView::SessionStateChanged { session_id, state })
}

/// What becomes of the answer of the user: the session goes on, and the tool runs only where
/// the user said so. A refusal gives the reason for which the user was asked.
pub proof fn law_answer_is_obeyed(
    run: ToolRunView,
    session: SessionView,
    tree: SessionTreeView,
    edges: Seq<(SessionId, SessionId)>,
    now_ms: u64,
    choice: Option<ApprovalChoice>,
)
    requires
        tool_awaits(run, ToolRunEventView::Answer(choice)),
    ensures
        ({
            let after = tool_move(
                run,
                session,
                tree,
                edges,
                now_ms,
                ToolRunEventView::Answer(choice),
            );
            &&& choice == Some(ApprovalChoice::ApproveOnce) && run.call.tool_name != "spawn"@
                && run.call.tool_name != "wait_child"@ && run.call.tool_name != "recv_message"@
                ==> after.action == ToolRunActionView::Execute { interactive: run.interactive }
            &&& choice == Some(ApprovalChoice::DenyOnce) || (choice is None && run.host
                == Host::Core) ==> after.action == ToolRunActionView::Finished(
                ToolOutcomeView::Error { message: "permission denied: "@ + run.reason },
            )
            &&& choice is Some || run.host == Host::Core ==> {
                &&& !after.session.approval_pending
                &&& after.effects.len() > 0
                &&& after.effects[0] == state_change(session.id, SessionState::Streaming)
            }
            &&& choice is None && run.host == Host::Actor ==> {
                &&& after.action is AwaitApproval
                &&& after.session == session
                &&& after.run == run
            }
        }),
{
}

/// What a tool asks the user reaches the user as it was asked, and the tool runs on once the
/// answer was handed to it.
pub proof fn law_tool_can_ask(
    run: ToolRunView,
    session: SessionView,
    tree: SessionTreeView,
    edges: Seq<(SessionId, SessionId)>,
    now_ms: u64,
    request: InteractionRequestView,
)
    requires
        run.phase == ToolRunPhase::Executing,
    ensures
        ({
            let asking = tool_move(
                run,
                session,
                tree,
                edges,
                now_ms,
                ToolRunEventView::Requested(request),
            );
            let going = tool_move(
                asking.run,
                asking.session,
                asking.tree,
                edges,
                now_ms,
                ToolRunEventView::Answered,
            );
            &&& asking.action is AwaitAnswer
            &&& asking.effects == seq![question(session.id, request)]
            &&& asking.session == session
            &&& going.action is AwaitTool
            &&& going.run == run
            &&& going.session == session
            &&& going.effects.len() == 0
        }),
{
}

/// A session that is made by a tool is made for the task that the call gives, and is named to
/// the model. Where none can be made the model gets the reason.
pub proof fn law_session_is_made_for_the_task(
    run: ToolRunView,
    session: SessionView,
    tree: SessionTreeView,
    edges: Seq<(SessionId, SessionId)>,
    now_ms: u64,
    child_id: SessionId,
    error: Seq<char>,
)
    requires
        run.call.tool_name == "spawn"@,
        run.host == Host::Core,
    ensures
        ({
            let asked = tool_move(
                run,
                session,
                tree,
                edges,
                now_ms,
                ToolRunEventView::Permission(PermissionVerdictView::Allowed),
            );
            let made = tool_move(
                run,
                session,
                tree,
                edges,
                now_ms,
                ToolRunEventView::Spawned(child_id),
            );
            let failed = tool_move(
                run,
                session,
                tree,
                edges,
                now_ms,
                ToolRunEventView::SpawnFailed(error),
            );
            &&& run.call.arguments.text("task"@) matches Some(task) ==> asked.action
                == ToolRunActionView::Spawn {
                task,
                system_prompt: run.call.arguments.text("system_prompt"@),
            }
            &&& run.call.arguments.text("task"@) is None ==> (asked.action matches
                ToolRunActionView::Finished(outcome) && outcome is Error)
            &&& made.action matches ToolRunActionView::Finished(
                ToolOutcomeView::Success { output },
            ) && output == "SessionId("@ + uuid_text(child_id.0) + ")"@
            &&& failed.action matches ToolRunActionView::Finished(
                ToolOutcomeView::Error { message },
            ) && message == "failed to spawn: "@ + error
        }),
{
    lemma_names_of_tools();
}

/// A tool that runs is told to stop when its session is, and the call is cancelled.
pub proof fn law_stop_reaches_the_tool(
    run: ToolRunView,
    session: SessionView,
    tree: SessionTreeView,
    edges: Seq<(SessionId, SessionId)>,
    now_ms: u64,
)
    requires
        tool_awaits(run, ToolRunEventView::Interrupted),
    ensures
        ({
            let after = tool_move(run, session, tree, edges, now_ms, ToolRunEventView::Interrupted);
            &&& after.action == ToolRunActionView::Finished(ToolOutcomeView::Cancelled)
            &&& run.phase != ToolRunPhase::Approving && session.cancel_armed ==> after.effects
                == seq![EffectView::CancelTool]
            &&& after.session == (SessionView { cancel_armed: false, ..session })
            &&& after.tree == tree
        }),
{
}

/// The run of a tool changes neither the conversation nor anything that the session was made
/// with.
pub proof fn law_tool_leaves_the_rest(
    run: ToolRunView,
    session: SessionView,
    tree: SessionTreeView,
    edges: Seq<(SessionId, SessionId)>,
    now_ms: u64,
    event: ToolRunEventView,
)
    requires
        tool_awaits(run, event),
    ensures
        ({
            let after = tool_move(run, session, tree, edges, now_ms, event);
            &&& after.session == (SessionView {
                state: after.session.state,
                cancel_armed: after.session.cancel_armed,
                suspended_wait: after.session.suspended_wait,
                mailbox: after.session.mailbox,
                approval_pending: after.session.approval_pending,
                last_permission: after.session.last_permission,
                ..session
            })
            &&& after.tree == (SessionTreeView { waits: after.tree.waits, ..tree })
            &&& after.run.call == run.call
            &&& after.run.host == run.host
            &&& after.run.interactive == run.interactive
        }),
{
}

/// A member that a call has is read as it is: of several with one key the first.
pub proof fn law_argument_is_read(members: Seq<MemberView>, i: int)
    requires
        0 <= i < members.len(),
        forall|k: int| 0 <= k < i ==> (#[trigger] members[k]).key != members[i].key,
    ensures
        ArgumentsView::Object(members).value(members[i].key) == Some(members[i].value),
        members[i].value matches ArgumentValueView::Text(content) ==> ArgumentsView::Object(
            members,
        ).text(members[i].key) == Some(content),
        members[i].value matches ArgumentValueView::Flag(flag) ==> ArgumentsView::Object(
            members,
        ).flag(members[i].key) == Some(flag),
        members[i].value matches ArgumentValueView::Count(n) ==> ArgumentsView::Object(
            members,
        ).count(members[i].key) == Some(n),
    decreases i,
{
    if i > 0 {
        let rest = members.drop_first();
        assert(rest[i - 1] == members[i]);
        assert forall|k: int| 0 <= k < i - 1 implies (#[trigger] rest[k]).key != rest[i - 1].key by {
            assert(rest[k] == members[k + 1]);
        }
        law_argument_is_read(rest, i - 1);
        assert(members[0].key != members[i].key);
        assert(member_value(members, members[i].key) == member_value(rest, members[i].key));
    }
}

/// A member that a call does not have is not read.
pub proof fn law_missing_argument(members: Seq<MemberView>, key: Seq<char>)
    requires
        forall|k: int| 0 <= k < members.len() ==> (#[trigger] members[k]).key != key,
    ensures
        ArgumentsView::Object(members).value(key) is None,
        ArgumentsView::Object(members).text(key) is None,
        ArgumentsView::Object(members).flag(key) is None,
        ArgumentsView::Object(members).count(key) is None,
    decreases members.len(),
{
    if members.len() > 0 {
        let rest = members.drop_first();
        assert forall|k: int| 0 <= k < rest.len() implies (#[trigger] rest[k]).key != key by {
            assert(rest[k] == members[k + 1]);
        }
        law_missing_argument(rest, key);
        assert(members[0].key != key);
    }
}

/// What the permission rules said of a call is kept with the session, under the name of the
/// tool.
pub proof fn law_permission_is_noted(
    run: ToolRunView,
    session: SessionView,
    tree: SessionTreeView,
    edges: Seq<(SessionId, SessionId)>,
    now_ms: u64,
    verdict: PermissionVerdictView,
    event: ToolRunEventView,
)
    ensures
        tool_move(
            run,
            session,
            tree,
            edges,
            now_ms,
            ToolRunEventView::Permission(verdict),
        ).session.last_permission == Some(
            PermissionOutcomeView { tool_name: run.call.tool_name, verdict },
        ),
        !(event is Permission) ==> tool_move(
            run,
            session,
            tree,
            edges,
            now_ms,
            event,
        ).session.last_permission == session.last_permission,
{
}

/// Where nobody is left who could answer, the call is an error, and a tool that runs is told to
/// stop. A question of the core counts as denied.
pub proof fn law_nobody_is_left(
    run: ToolRunView,
    session: SessionView,
    tree: SessionTreeView,
    edges: Seq<(SessionId, SessionId)>,
    now_ms: u64,
)
    requires
        tool_awaits(run, ToolRunEventView::Closed),
    ensures
        ({
            let after = tool_move(run, session, tree, edges, now_ms, ToolRunEventView::Closed);
            &&& after.action matches ToolRunActionView::Finished(
                ToolOutcomeView::Error { message },
            )
            &&& run.phase != ToolRunPhase::Approving && session.cancel_armed ==> after.effects
                == seq![EffectView::CancelTool]
            &&& run.phase == ToolRunPhase::Approving && run.host == Host::Core
                ==> crate::laws::parts::begins_with(message, "permission denied: "@ + run.reason)
                && !after.session.approval_pending && after.session.state
                == SessionState::Streaming
            &&& !after.session.cancel_armed
            &&& after.tree == tree
        }),
{
    let start = "permission denied: "@ + run.reason;
    let message = "permission denied: "@ + (run.reason + "; approval response channel closed"@);
    assert(message.take(start.len() as int) =~= start);
}

/// What is asked for where a call does not say what it touches: a place that is not named is the
/// root of the files, a command that is not named is none, and so is a session.
pub proof fn law_permission_for_what_is_not_named(
    host: Host,
    session: SessionView,
    tree: SessionTreeView,
    call: PendingToolCallView,
    filesystem: OverlayFilesystem,
)
    requires
        !session.interrupted,
        registered(session.registry, call.tool_name) is Some,
    ensures
        ({
            let begun = tool_begun(host, session, tree, call, filesystem);
            let here = place_asked_for(filesystem, session.config.working_directory, "."@);
            &&& begun.action matches ToolRunActionView::CheckPermission { request, local }
            &&& call.tool_name == "find"@ && call.arguments.text("path"@) is None
                ==> request.resource == PermissionResourceView::Path { path: here }
            &&& call.tool_name == "read_file"@ && call.arguments.text("file_path"@) is None
                ==> request.resource == PermissionResourceView::Path { path: here }
            &&& call.tool_name == "bash"@ && call.arguments.text("command"@) is None
                ==> request.resource == PermissionResourceView::Nothing && local is None
            &&& call.tool_name == "signal"@ && call.arguments.text("session_id"@) is None
                ==> request.resource == PermissionResourceView::Nothing
            &&& call.tool_name == "subagent"@ ==> request.resource
                == (PermissionResourceView::Agent { target: call.tool_name }) && request.scope
                == PermissionScope::AgentControl
        }),
{
    lemma_names_of_tools();
    reveal_strlit("subagent");
    reveal_strlit("read_file");
    reveal_strlit("find");
    reveal_strlit("apply_patch");
    reveal_strlit("bash");
    reveal_strlit("signal");
    assert("subagent"@.len() == 8 && "read_file"@.len() == 9 && "find"@.len() == 4
        && "apply_patch"@.len() == 11 && "bash"@.len() == 4 && "signal"@.len() == 6);
}

} // verus!
