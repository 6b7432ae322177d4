//! What following a plan is for: a plan is found again, and the model is told what is next.

use vstd::prelude::*;

use crate::arguments::ArgumentsView;
use crate::channel::CoreOutputView;
use crate::laws::parts::{
    ends_with, lemma_is_between, lemma_part_of_joined, lemma_part_of_part, part_of,
};
use crate::message::{MessageContentView, MessageView, PendingToolCallView, Role};
use crate::plan::{
    action_line, normalized, plan_id_in, plan_id_of_call, plan_message, plan_output,
    plan_output_with_prompt, updated_action, PlanActionView, PlanStateView,
};
use crate::session::SessionId;
use crate::text;

verus! {

broadcast use vstd::seq::group_seq_axioms;

/// Whether a line speaks of no plan.
pub open spec fn tells_nothing(line: Seq<char>) -> bool {
    !"plan_id:"@.is_prefix_of(text::trimmed(line)) && !"Plan created (ID:"@.is_prefix_of(
        text::trimmed(line),
    )
}

proof fn lemma_silent_lines(lines: Seq<Seq<char>>, i: int)
    requires
        0 <= i <= lines.len(),
        forall|j: int| 0 <= j < i ==> tells_nothing(#[trigger] lines[j]),
    ensures
        plan_id_in(lines) == plan_id_in(lines.skip(i)),
    decreases i,
{
    if i == 0 {
        assert(lines.skip(0) =~= lines);
    } else {
        let rest = lines.drop_first();
        assert(tells_nothing(lines[0]));
        assert forall|j: int| 0 <= j < i - 1 implies tells_nothing(#[trigger] rest[j]) by {
            assert(rest[j] == lines[j + 1]);
        }
        lemma_silent_lines(rest, i - 1);
        assert(rest.skip(i - 1) =~= lines.skip(i));
    }
}

/// The identifier of a plan is what follows in the first line that names one: behind `plan_id:`,
/// or between the brackets of the announcement. Lines that speak of no plan do not matter, and
/// where there are only such lines there is none.
pub proof fn law_plan_id_is_found(lines: Seq<Seq<char>>, i: int, rest: Seq<char>)
    requires
        0 <= i <= lines.len(),
        forall|j: int| 0 <= j < i ==> tells_nothing(#[trigger] lines[j]),
    ensures
        i == lines.len() ==> plan_id_in(lines) is None,
        i < lines.len() && text::trimmed(lines[i]) == "plan_id:"@ + rest && text::trimmed(
            rest,
        ).len() > 0 ==> plan_id_in(lines) == Some(text::trimmed(rest)),
        i < lines.len() && text::trimmed(lines[i]) == "Plan created (ID:"@ + rest.push(')')
            && text::trimmed(rest).len() > 0 ==> plan_id_in(lines) == Some(text::trimmed(rest)),
{
    lemma_silent_lines(lines, i);
    let left = lines.skip(i);
    if i < lines.len() {
        assert(left[0] == lines[i]);
        let t = text::trimmed(lines[i]);
        let a = "plan_id:"@;
        let b = "Plan created (ID:"@;
        if t == a + rest {
            assert(a =~= t.subrange(0, a.len() as int));
            assert(t.skip(a.len() as int) =~= rest);
        }
        if t == b + rest.push(')') && text::trimmed(rest).len() > 0 {
            lemma_bracket_stays(rest);
            assert(b =~= t.subrange(0, b.len() as int));
            assert(t.skip(b.len() as int) =~= rest.push(')'));
            reveal_strlit("plan_id:");
            reveal_strlit("Plan created (ID:");
            if a.is_prefix_of(t) {
                assert(a[0] == t[0]);
                assert(b[0] == t[0]);
            }
            let inner = text::trim_start(rest);
            assert(inner.push(')').drop_last() =~= inner);
            lemma_trimmed_start(rest);
        }
    } else {
        assert(left =~= Seq::empty());
    }
}

proof fn lemma_bracket_stays(s: Seq<char>)
    ensures
        text::trim_start(s.push(')')) == text::trim_start(s).push(')'),
        text::trimmed(s.push(')')) == text::trim_start(s).push(')'),
    decreases s.len(),
{
    if s.len() > 0 && text::is_space(s[0]) {
        lemma_bracket_stays(s.drop_first());
        assert(s.push(')').drop_first() =~= s.drop_first().push(')'));
    }
}

proof fn lemma_trimmed_start(s: Seq<char>)
    ensures
        text::trimmed(text::trim_start(s)) == text::trimmed(s),
    decreases s.len(),
{
    if s.len() > 0 && text::is_space(s[0]) {
        lemma_trimmed_start(s.drop_first());
    }
}

/// The plan that a call made is the one that its last successful result names. Results of
/// other calls, failed ones, and all other messages do not matter.
pub proof fn law_plan_of_a_call(
    history: Seq<MessageView>,
    message: MessageView,
    id: Seq<char>,
)
    ensures
        plan_id_of_call(Seq::empty(), id) is None,
        message.content matches MessageContentView::ToolResult { tool_use_id, output, is_error }
            ==> (tool_use_id == id && !is_error && plan_id_in(text::line_list(output)) is Some
            ==> plan_id_of_call(history.push(message), id) == plan_id_in(text::line_list(output))),
        message.content matches MessageContentView::ToolResult { tool_use_id, output, is_error }
            ==> (tool_use_id != id || is_error ==> plan_id_of_call(history.push(message), id)
            == plan_id_of_call(history, id)),
        !(message.content is ToolResult) ==> plan_id_of_call(history.push(message), id)
            == plan_id_of_call(history, id),
{
    assert(history.push(message).drop_last() =~= history);
    assert(history.push(message).last() == message);
}

/// An update of a plan that names the call which made the plan is done with the identifier of
/// that plan. Every other call stays as it is.
pub proof fn law_update_names_the_plan(
    history: Seq<MessageView>,
    call: PendingToolCallView,
    raw: Seq<char>,
    plan_id: Seq<char>,
)
    ensures
        ({
            let updates = call.tool_name == "plan"@ && call.arguments.text("operation"@) == Some(
                "update_plan"@,
            ) && call.arguments.text("plan_id"@) == Some(raw) && "call_"@.is_prefix_of(raw)
                && plan_id_of_call(history, raw) == Some(plan_id);
            &&& updates ==> normalized(history, call).arguments.text("plan_id"@) == Some(plan_id)
            &&& updates ==> normalized(history, call).tool_name == call.tool_name && normalized(
                history,
                call,
            ).tool_use_id == call.tool_use_id
            &&& call.tool_name != "plan"@ || call.arguments.text("operation"@) != Some(
                "update_plan"@,
            ) || call.arguments.text("plan_id"@) is None ==> normalized(history, call) == call
            &&& call.arguments.text("plan_id"@) == Some(raw) && (!"call_"@.is_prefix_of(raw)
                || plan_id_of_call(history, raw) is None) ==> normalized(history, call) == call
        }),
{
    crate::plan::law_normalized(history, call, "operation"@);
}

/// An update of a plan says which action of which plan it was.
pub proof fn law_update_is_noticed(
    tool_name: Seq<char>,
    arguments: ArgumentsView,
    plan_id: Seq<char>,
    action_id: Seq<char>,
)
    ensures
        tool_name == "plan"@ && arguments.text("operation"@) == Some("update_plan"@)
            && arguments.text("plan_id"@) == Some(plan_id) && arguments.text("action_id"@) == Some(
            action_id,
        ) <==> updated_action(tool_name, arguments) == Some((plan_id, action_id)),
{
}

/// What the model is told after an update: the summary of a plan that is complete; otherwise
/// every action that can be done next, with its identifier, its title and what it is, and the
/// identifier of the plan. Where nothing can be done next it is told nothing.
pub proof fn law_model_is_told_what_is_next(plan: PlanStateView, plan_id: Seq<char>, i: int)
    ensures
        plan.complete ==> (plan_message(plan, plan_id) matches Some(message) && message.role
            == Role::User && (message.content matches MessageContentView::Text(told) && ends_with(
            told,
            plan.summary,
        ))),
        !plan.complete && plan.ready.len() == 0 ==> plan_message(plan, plan_id) is None,
        !plan.complete && 0 <= i < plan.ready.len() ==> {
            &&& plan_message(plan, plan_id) matches Some(message)
            &&& message.role == Role::User
            &&& message.content matches MessageContentView::Text(told)
            &&& ends_with(told, plan_id)
            &&& part_of(plan.ready[i].action_id, told)
            &&& part_of(plan.ready[i].title, told)
            &&& part_of(plan.ready[i].description, told)
        },
{
    if plan.complete {
        let a = "All actions in the plan are complete. Here is the final summary:\n\n"@;
        let told = a + plan.summary;
        assert(told.skip(told.len() - plan.summary.len()) =~= plan.summary);
    } else if 0 <= i < plan.ready.len() {
        let lines = plan.ready.map_values(|a: PlanActionView| action_line(a));
        let list = text::joined(lines, "; "@);
        let a = "Execute the next action from your plan: "@;
        let b =
            ". When done, use the `plan` tool with operation `update_plan` to mark it as completed. Reuse this exact plan_id: "@;
        let told = a + list + b + plan_id;
        assert(told.skip(told.len() - plan_id.len()) =~= plan_id);
        let action = plan.ready[i];
        let line = action_line(action);
        assert(lines[i] == line);
        lemma_part_of_joined(lines, "; "@, i);
        assert(told =~= a + list + (b + plan_id));
        lemma_is_between(told, a, list, b + plan_id);
        lemma_part_of_part(line, list, told);
        let none = Seq::<char>::empty();
        let x = "["@;
        let y = x + action.action_id + "] "@;
        let z = y + action.title + " \u{2014} "@;
        assert(line =~= x + action.action_id + ("] "@ + action.title + " \u{2014} "@
            + action.description));
        lemma_is_between(
            line,
            x,
            action.action_id,
            "] "@ + action.title + " \u{2014} "@ + action.description,
        );
        assert(line =~= y + action.title + (" \u{2014} "@ + action.description));
        lemma_is_between(line, y, action.title, " \u{2014} "@ + action.description);
        assert(line =~= z + action.description + none);
        lemma_is_between(line, z, action.description, none);
        lemma_part_of_part(action.action_id, line, told);
        lemma_part_of_part(action.title, line, told);
        lemma_part_of_part(action.description, line, told);
    }
}

proof fn lemma_status_of_first(actions: Seq<PlanActionView>, i: int)
    requires
        0 <= i < actions.len(),
        forall|j: int| 0 <= j < i ==> (#[trigger] actions[j]).action_id != actions[i].action_id,
    ensures
        crate::plan::action_status(actions, actions[i].action_id) == Some(actions[i].status),
    decreases i,
{
    if i > 0 {
        let rest = actions.drop_first();
        assert(actions[0].action_id != actions[i].action_id);
        assert(rest[i - 1] == actions[i]);
        assert forall|j: int| 0 <= j < i - 1 implies (#[trigger] rest[j]).action_id != rest[i
            - 1].action_id by {
            assert(rest[j] == actions[j + 1]);
        }
        lemma_status_of_first(rest, i - 1);
    }
}

proof fn lemma_no_status(actions: Seq<PlanActionView>, action_id: Seq<char>)
    requires
        forall|j: int| 0 <= j < actions.len() ==> (#[trigger] actions[j]).action_id != action_id,
    ensures
        crate::plan::action_status(actions, action_id) is None,
    decreases actions.len(),
{
    if actions.len() > 0 {
        let rest = actions.drop_first();
        assert(actions[0].action_id != action_id);
        assert forall|j: int| 0 <= j < rest.len() implies (#[trigger] rest[j]).action_id
            != action_id by {
            assert(rest[j] == actions[j + 1]);
        }
        lemma_no_status(rest, action_id);
    }
}

proof fn lemma_others(actions: Seq<PlanActionView>, action_id: Seq<char>)
    ensures
        crate::plan::others(actions, action_id) == actions.filter(
            |a: PlanActionView| a.action_id != action_id,
        ).len(),
    decreases actions.len(),
{
    reveal(Seq::filter);
    if actions.len() > 0 {
        lemma_others(actions.drop_last(), action_id);
    }
}

/// What the host is told of an update: the plan, the action, the status that the action has
/// now, how many actions are left and how many there are. An action that is not in the plan
/// has no status, and without a prompt nothing is told of it.
pub proof fn law_progress_is_told(
    session_id: SessionId,
    plan: PlanStateView,
    plan_id: Seq<char>,
    action_id: Seq<char>,
    i: int,
)
    requires
        0 <= i <= plan.actions.len() <= usize::MAX,
        plan.ready.len() <= usize::MAX,
        i < plan.actions.len() ==> plan.actions[i].action_id == action_id,
        forall|j: int| 0 <= j < i ==> (#[trigger] plan.actions[j]).action_id != action_id,
    ensures
        ({
            let others = plan.ready.filter(|a: PlanActionView| a.action_id != action_id);
            let found = i < plan.actions.len();
            &&& plan_output_with_prompt(session_id, plan, plan_id, action_id) == (
            CoreOutputView::PlanProgress {
                session_id,
                plan_id,
                action_id,
                status: if found {
                    plan.actions[i].status
                } else {
                    Seq::empty()
                },
                remaining: plan.remaining,
                total: plan.actions.len() as usize,
            })
            &&& !found ==> plan_output(session_id, plan, plan_id, action_id) is None
            &&& found ==> plan_output(session_id, plan, plan_id, action_id) == Some(
                CoreOutputView::PlanProgress {
                    session_id,
                    plan_id,
                    action_id,
                    status: plan.actions[i].status,
                    remaining: others.len() as usize,
                    total: plan.actions.len() as usize,
                },
            )
        }),
{
    lemma_others(plan.ready, action_id);
    if i < plan.actions.len() {
        lemma_status_of_first(plan.actions, i);
    } else {
        lemma_no_status(plan.actions, action_id);
    }
}

} // verus!
