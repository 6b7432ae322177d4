//! Plans: finding their identifiers in tool results, and reporting on their progress.

use vstd::prelude::*;
use vstd::string::*;

use crate::arguments::{law_replaced_member, ArgumentValueView, ArgumentsView};
use crate::channel::{CoreOutput, CoreOutputView};
use crate::message::{
    text_message, Message, MessageContent, MessageContentView, MessageView, PendingToolCall,
    PendingToolCallView, Role,
};
use crate::session::SessionId;
use crate::text;

verus! {

broadcast use vstd::seq::group_seq_axioms;

/// What a line says about the identifier of a plan.
pub enum PlanLine {
    /// The identifier.
    Id(Seq<char>),
    /// The announcement of a plan that is not closed by a bracket.
    Broken,
    /// Nothing.
    Nothing,
}

/// What a line says about the identifier of a plan: `plan_id:` and the identifier, or
/// `Plan created (ID:`, the identifier, and a closing bracket at the end.
pub open spec fn plan_line(line: Seq<char>) -> PlanLine {
    let t = text::trimmed(line);
    if "plan_id:"@.is_prefix_of(t) && text::trimmed(t.skip("plan_id:"@.len() as int)).len() > 0 {
        PlanLine::Id(text::trimmed(t.skip("plan_id:"@.len() as int)))
    } else if "Plan created (ID:"@.is_prefix_of(t) {
        let rest = text::trimmed(t.skip("Plan created (ID:"@.len() as int));
        if rest.len() == 0 || rest.last() != ')' {
            PlanLine::Broken
        } else if text::trimmed(rest.drop_last()).len() > 0 {
            PlanLine::Id(text::trimmed(rest.drop_last()))
        } else {
            PlanLine::Nothing
        }
    } else {
        PlanLine::Nothing
    }
}

/// The identifier that the first telling line gives; a broken announcement gives none.
pub open spec fn plan_id_in(lines: Seq<Seq<char>>) -> Option<Seq<char>>
    decreases lines.len(),
{
    if lines.len() == 0 {
        None
    } else {
        match plan_line(lines[0]) {
            PlanLine::Id(id) => Some(id),
            PlanLine::Broken => None,
            PlanLine::Nothing => plan_id_in(lines.drop_first()),
        }
    }
}

/// The identifier of the plan that the output of the plan tool speaks of.
pub fn extract_plan_id_from_tool_output(output: &str) -> (r: Option<String>)
    ensures
        r.deep_view() == plan_id_in(text::line_list(output@)),
{
    let lines = text::lines(output);
    let ghost all = lines.deep_view();
    let mut i: usize = 0;
    assert(all.skip(0) =~= all);
    while i < lines.len()
        invariant
            i <= lines@.len(),
            all == lines.deep_view(),
            all == text::line_list(output@),
            plan_id_in(all) == plan_id_in(all.skip(i as int)),
        decreases lines@.len() - i,
    {
        assert(all.skip(i as int)[0] == lines@[i as int]@);
        assert(all.skip(i as int).drop_first() =~= all.skip(i + 1));
        let trimmed = text::trim(lines[i].as_str());
        if text::starts_with(trimmed.as_str(), "plan_id:") {
            let rest = text::skip_chars(trimmed.as_str(), "plan_id:".unicode_len());
            let plan_id = text::trim(rest.as_str());
            if !plan_id.as_str().is_empty() {
                return Some(plan_id);
            }
        }
        if text::starts_with(trimmed.as_str(), "Plan created (ID:") {
            let rest = text::skip_chars(trimmed.as_str(), "Plan created (ID:".unicode_len());
            let rest = text::trim(rest.as_str());
            let chars = text::chars_of(rest.as_str());
            proof {
                reveal_strlit("plan_id:");
                reveal_strlit("Plan created (ID:");
                if "plan_id:"@.is_prefix_of(trimmed@) {
                    assert("plan_id:"@[0] == trimmed@[0]);
                    assert("Plan created (ID:"@[0] == trimmed@[0]);
                }
            }
            if chars.len() == 0 || chars[chars.len() - 1] != ')' {
                return None;
            }
            let inner = text::text_between(&chars, 0, chars.len() - 1);
            assert(inner@ =~= rest@.drop_last());
            let plan_id = text::trim(inner.as_str());
            if !plan_id.as_str().is_empty() {
                return Some(plan_id);
            }
        }
        i = i + 1;
    }
    None
}

/// The identifier that the last successful result of a tool call gives.
pub open spec fn plan_id_of_call(history: Seq<MessageView>, tool_use_id: Seq<char>) -> Option<
    Seq<char>,
>
    decreases history.len(),
{
    if history.len() == 0 {
        None
    } else {
        let earlier = plan_id_of_call(history.drop_last(), tool_use_id);
        match history.last().content {
            MessageContentView::ToolResult { tool_use_id: id, output, is_error } => if !is_error
                && id == tool_use_id {
                match plan_id_in(text::line_list(output)) {
                    Some(plan_id) => Some(plan_id),
                    None => earlier,
                }
            } else {
                earlier
            },
            _ => earlier,
        }
    }
}

/// The identifier of the plan that a tool call made.
pub fn resolve_plan_tool_call_id(history: &Vec<Message>, tool_use_id: &str) -> (r: Option<String>)
    ensures
        r.deep_view() == plan_id_of_call(history.deep_view(), tool_use_id@),
{
    let ghost all = history.deep_view();
    let mut i: usize = history.len();
    assert(all.take(i as int) =~= all);
    while i > 0
        invariant
            i <= history@.len(),
            all == history.deep_view(),
            plan_id_of_call(all, tool_use_id@) == plan_id_of_call(
                all.take(i as int),
                tool_use_id@,
            ),
        decreases i,
    {
        assert(all.take(i as int).drop_last() =~= all.take(i - 1));
        assert(all.take(i as int).last() == history@[i - 1].deep_view());
        if let MessageContent::ToolResult { tool_use_id: id, output, is_error } =
            &history[i - 1].content {
            if !*is_error && text::same(id.as_str(), tool_use_id) {
                if let Some(plan_id) = extract_plan_id_from_tool_output(output.as_str()) {
                    return Some(plan_id);
                }
            }
        }
        i = i - 1;
    }
    assert(all.take(0) =~= Seq::empty());
    None
}

/// The identifier that replaces the one of a plan update, where the update names the plan
/// by the tool call that made it.
pub open spec fn replaced_plan_id(
    history: Seq<MessageView>,
    call: PendingToolCallView,
) -> Option<Seq<char>> {
    if call.tool_name == "plan"@ && call.arguments.text("operation"@) == Some("update_plan"@) {
        match call.arguments.text("plan_id"@) {
            Some(raw) => if "call_"@.is_prefix_of(raw) {
                plan_id_of_call(history, raw)
            } else {
                None
            },
            None => None,
        }
    } else {
        None
    }
}

/// A call with the identifier of its plan resolved.
pub open spec fn normalized(
    history: Seq<MessageView>,
    call: PendingToolCallView,
) -> PendingToolCallView {
    match replaced_plan_id(history, call) {
        Some(plan_id) => PendingToolCallView {
            arguments: call.arguments.with_text("plan_id"@, plan_id),
            ..call
        },
        None => call,
    }
}

/// A resolved call names the plan by its identifier; its other arguments, its tool and its
/// own identifier are as before.
pub proof fn law_normalized(history: Seq<MessageView>, call: PendingToolCallView, key: Seq<char>)
    ensures
        normalized(history, call).tool_use_id == call.tool_use_id,
        normalized(history, call).tool_name == call.tool_name,
        replaced_plan_id(history, call) matches Some(plan_id) ==> normalized(
            history,
            call,
        ).arguments.text("plan_id"@) == Some(plan_id),
        key != "plan_id"@ ==> normalized(history, call).arguments.value(key)
            == call.arguments.value(key),
{
    if let Some(plan_id) = replaced_plan_id(history, call) {
        if let ArgumentsView::Object(members) = call.arguments {
            law_replaced_member(members, "plan_id"@, ArgumentValueView::Text(plan_id), key);
        }
    }
}

/// Resolves the identifier of the plan that a call updates.
pub fn normalize_plan_tool_arguments(
    history: &Vec<Message>,
    call: &PendingToolCall,
) -> (r: PendingToolCall)
    ensures
        r.deep_view() == normalized(history.deep_view(), call.deep_view()),
{
    if !text::same(call.tool_name.as_str(), "plan") {
        return call.clone();
    }
    match call.arguments.text("operation") {
        Some(operation) => {
            if !text::same(operation.as_str(), "update_plan") {
                return call.clone();
            }
        },
        None => {
            return call.clone();
        },
    }
    match call.arguments.text("plan_id") {
        Some(raw) => {
            if !text::starts_with(raw.as_str(), "call_") {
                return call.clone();
            }
            match resolve_plan_tool_call_id(history, raw.as_str()) {
                Some(plan_id) => {
                    let copy = call.clone();
                    PendingToolCall {
                        tool_use_id: copy.tool_use_id,
                        tool_name: copy.tool_name,
                        arguments: copy.arguments.with_text("plan_id", plan_id),
                    }
                },
                None => call.clone(),
            }
        },
        None => call.clone(),
    }
}

/// The plan and the action that a finished call has updated.
pub open spec fn updated_action(tool_name: Seq<char>, arguments: ArgumentsView) -> Option<
    (Seq<char>, Seq<char>),
> {
    if tool_name == "plan"@ && arguments.text("operation"@) == Some("update_plan"@) {
        match (arguments.text("plan_id"@), arguments.text("action_id"@)) {
            (Some(plan_id), Some(action_id)) => Some((plan_id, action_id)),
            _ => None,
        }
    } else {
        None
    }
}

/// The plan and the action that a finished call has updated.
pub fn plan_update(tool_name: &str, arguments: &crate::arguments::Arguments) -> (r: Option<
    (String, String),
>)
    ensures
        r.deep_view() == updated_action(tool_name@, arguments.deep_view()),
{
    if !text::same(tool_name, "plan") {
        return None;
    }
    match arguments.text("operation") {
        Some(operation) => {
            if !text::same(operation.as_str(), "update_plan") {
                return None;
            }
        },
        None => {
            return None;
        },
    }
    match (arguments.text("plan_id"), arguments.text("action_id")) {
        (Some(plan_id), Some(action_id)) => Some((plan_id, action_id)),
        _ => None,
    }
}

/// An action of a plan.
#[derive(Debug)]
pub struct PlanAction {
    pub action_id: String,
    pub title: String,
    pub description: String,
    /// The label of its status.
    pub status: String,
}

/// The model of [`PlanAction`].
#[verifier::ext_equal]
pub struct PlanActionView {
    pub action_id: Seq<char>,
    pub title: Seq<char>,
    pub description: Seq<char>,
    pub status: Seq<char>,
}

impl DeepView for PlanAction {
    type V = PlanActionView;

    open spec fn deep_view(&self) -> PlanActionView {
        PlanActionView {
            action_id: self.action_id.deep_view(),
            title: self.title.deep_view(),
            description: self.description.deep_view(),
            status: self.status.deep_view(),
        }
    }
}

/// What is known of a plan when one of its actions was updated.
#[derive(Debug)]
pub struct PlanState {
    pub actions: Vec<PlanAction>,
    /// The actions that can be done next.
    pub ready: Vec<PlanAction>,
    /// How many actions are not done.
    pub remaining: usize,
    pub complete: bool,
    /// The plan as text.
    pub summary: String,
}

/// The model of [`PlanState`].
#[verifier::ext_equal]
pub struct PlanStateView {
    pub actions: Seq<PlanActionView>,
    pub ready: Seq<PlanActionView>,
    pub remaining: usize,
    pub complete: bool,
    pub summary: Seq<char>,
}

impl DeepView for PlanState {
    type V = PlanStateView;

    open spec fn deep_view(&self) -> PlanStateView {
        PlanStateView {
            actions: self.actions.deep_view(),
            ready: self.ready.deep_view(),
            remaining: self.remaining,
            complete: self.complete,
            summary: self.summary.deep_view(),
        }
    }
}

/// The status of the first action with that identifier.
pub open spec fn action_status(actions: Seq<PlanActionView>, action_id: Seq<char>) -> Option<
    Seq<char>,
>
    decreases actions.len(),
{
    if actions.len() == 0 {
        None
    } else if actions[0].action_id == action_id {
        Some(actions[0].status)
    } else {
        action_status(actions.drop_first(), action_id)
    }
}

/// The status of the first action with that identifier.
fn find_action_status(actions: &Vec<PlanAction>, action_id: &str) -> (r: Option<String>)
    ensures
        r.deep_view() == action_status(actions.deep_view(), action_id@),
{
    let ghost all = actions.deep_view();
    let mut i: usize = 0;
    assert(all.skip(0) =~= all);
    while i < actions.len()
        invariant
            i <= actions@.len(),
            all == actions.deep_view(),
            action_status(all, action_id@) == action_status(all.skip(i as int), action_id@),
        decreases actions@.len() - i,
    {
        assert(all.skip(i as int)[0] == actions@[i as int].deep_view());
        assert(all.skip(i as int).drop_first() =~= all.skip(i + 1));
        if text::same(actions[i].action_id.as_str(), action_id) {
            return Some(actions[i].status.clone());
        }
        i = i + 1;
    }
    None
}

/// An action as the prompt for it shows it.
pub open spec fn action_line(action: PlanActionView) -> Seq<char> {
    "["@ + action.action_id + "] "@ + action.title + " \u{2014} "@ + action.description
}

/// The message that follows an updated action: a summary of a finished plan, or the
/// prompt for the actions that can be done next, if there are any.
pub open spec fn plan_message(plan: PlanStateView, plan_id: Seq<char>) -> Option<MessageView> {
    if plan.complete {
        Some(
            text_message(
                Role::User,
                "All actions in the plan are complete. Here is the final summary:\n\n"@
                    + plan.summary,
            ),
        )
    } else if plan.ready.len() > 0 {
        Some(
            text_message(
                Role::User,
                "Execute the next action from your plan: "@ + text::joined(
                    plan.ready.map_values(|a: PlanActionView| action_line(a)),
                    "; "@,
                )
                    + ". When done, use the `plan` tool with operation `update_plan` to mark it as completed. Reuse this exact plan_id: "@
                    + plan_id,
            ),
        )
    } else {
        None
    }
}

/// How a plan has moved on, for a session that is told what to do next.
pub open spec fn plan_output_with_prompt(
    session_id: SessionId,
    plan: PlanStateView,
    plan_id: Seq<char>,
    action_id: Seq<char>,
) -> CoreOutputView {
    CoreOutputView::PlanProgress {
        session_id,
        plan_id,
        action_id,
        status: match action_status(plan.actions, action_id) {
            Some(status) => status,
            None => Seq::empty(),
        },
        remaining: plan.remaining,
        total: plan.actions.len() as usize,
    }
}

/// Reports on a plan and prompts for its next actions.
pub fn plan_progress_with_prompt(
    session_id: SessionId,
    plan: &PlanState,
    plan_id: &str,
    action_id: &str,
) -> (r: (CoreOutput, Option<Message>))
    ensures
        r.0.deep_view() == plan_output_with_prompt(
            session_id,
            plan.deep_view(),
            plan_id@,
            action_id@,
        ),
        r.1.deep_view() == plan_message(plan.deep_view(), plan_id@),
{
    let status = match find_action_status(&plan.actions, action_id) {
        Some(status) => status,
        None => String::new(),
    };
    let output = CoreOutput::PlanProgress {
        session_id,
        plan_id: plan_id.to_owned(),
        action_id: action_id.to_owned(),
        status,
        remaining: plan.remaining,
        total: plan.actions.len(),
    };
    if plan.complete {
        let mut summary = "All actions in the plan are complete. Here is the final summary:\n\n".to_owned();
        summary.append(plan.summary.as_str());
        return (output, Some(Message::user(summary)));
    }
    if plan.ready.len() == 0 {
        return (output, None);
    }
    let mut parts: Vec<String> = Vec::new();
    let ghost wanted = plan.ready.deep_view().map_values(|a: PlanActionView| action_line(a));
    let mut i: usize = 0;
    while i < plan.ready.len()
        invariant
            i <= plan.ready@.len(),
            wanted == plan.ready.deep_view().map_values(|a: PlanActionView| action_line(a)),
            parts.deep_view() == wanted.take(i as int),
        decreases plan.ready@.len() - i,
    {
        let ghost before = parts.deep_view();
        let mut part = "[".to_owned();
        part.append(plan.ready[i].action_id.as_str());
        part.append("] ");
        part.append(plan.ready[i].title.as_str());
        part.append(" \u{2014} ");
        part.append(plan.ready[i].description.as_str());
        parts.push(part);
        assert(parts.deep_view() =~= before.push(wanted[i as int]));
        assert(wanted.take(i + 1) =~= wanted.take(i as int).push(wanted[i as int]));
        i = i + 1;
    }
    assert(wanted.take(i as int) =~= wanted);
    let mut prompt = "Execute the next action from your plan: ".to_owned();
    let list = text::join(&parts, "; ");
    prompt.append(list.as_str());
    prompt.append(". When done, use the `plan` tool with operation `update_plan` to mark it as completed. Reuse this exact plan_id: ");
    prompt.append(plan_id);
    (output, Some(Message::user(prompt)))
}

/// The number of actions with another identifier.
pub open spec fn others(actions: Seq<PlanActionView>, action_id: Seq<char>) -> nat
    decreases actions.len(),
{
    if actions.len() == 0 {
        0
    } else {
        others(actions.drop_last(), action_id) + (if actions.last().action_id == action_id {
            0nat
        } else {
            1nat
        })
    }
}

/// How a plan has moved on, if it has the action.
pub open spec fn plan_output(
    session_id: SessionId,
    plan: PlanStateView,
    plan_id: Seq<char>,
    action_id: Seq<char>,
) -> Option<CoreOutputView> {
    match action_status(plan.actions, action_id) {
        Some(status) => Some(
            CoreOutputView::PlanProgress {
                session_id,
                plan_id,
                action_id,
                status,
                remaining: others(plan.ready, action_id) as usize,
                total: plan.actions.len() as usize,
            },
        ),
        None => None,
    }
}

/// Reports on a plan, if the action is one of its actions: how many others can be done
/// next, and how many actions there are.
pub fn plan_progress(
    session_id: SessionId,
    plan: &PlanState,
    plan_id: &str,
    action_id: &str,
) -> (r: Option<CoreOutput>)
    ensures
        r.deep_view() == plan_output(session_id, plan.deep_view(), plan_id@, action_id@),
        others(plan.deep_view().ready, action_id@) <= plan.ready@.len(),
{
    let ghost all = plan.ready.deep_view();
    let mut remaining: usize = 0;
    let mut i: usize = 0;
    assert(all.take(0) =~= Seq::empty());
    while i < plan.ready.len()
        invariant
            i <= plan.ready@.len(),
            all == plan.ready.deep_view(),
            remaining == others(all.take(i as int), action_id@),
            remaining <= i,
        decreases plan.ready@.len() - i,
    {
        assert(all.take(i + 1).drop_last() =~= all.take(i as int));
        assert(all.take(i + 1).last() == plan.ready@[i as int].deep_view());
        if !text::same(plan.ready[i].action_id.as_str(), action_id) {
            remaining = remaining + 1;
        }
        i = i + 1;
    }
    assert(all.take(i as int) =~= all);
    match find_action_status(&plan.actions, action_id) {
        Some(status) => Some(
            CoreOutput::PlanProgress {
                session_id,
                plan_id: plan_id.to_owned(),
                action_id: action_id.to_owned(),
                status,
                remaining,
                total: plan.actions.len(),
            },
        ),
        None => None,
    }
}

} // verus!
