//! Prompts: what a session tells its model at the start, and how much of it a cache knows.

use vstd::multiset::Multiset;
use vstd::prelude::*;
use vstd::string::*;

use crate::message::{
    last_user, latest_user_message_index, role_label, role_text, text_message, Message,
    MessageContent, MessageContentView, MessageView,
    PromptCacheUsage, Role, ToolDefinition, ToolDefinitionView, ToolUseRequest,
    ToolUseRequestView,
};
use crate::text;

verus! {

broadcast use vstd::seq::group_seq_axioms;

/// The prompt of every session.
pub const DEFAULT_SYSTEM_PROMPT: &'static str = "You are a helpful coding assistant. You help users with software engineering tasks using the tools available to you. Each message from the user is a new request \u{2014} respond to it directly. Use tools when needed to read files, run commands, or write code. Be concise and accurate.";

/// The prompt in front of it in plan mode, where only planning is allowed.
pub const PLAN_MODE_SYSTEM_PROMPT: &'static str = "You are a software architect and planning specialist. Your role is to explore the codebase and create detailed implementation plans. You are in planning-only mode.\n\nCRITICAL CONSTRAINTS:\n- You MUST NOT create, edit, delete, or modify any files\n- You MUST NOT run commands that alter system state (no writes, no installs, no git commits)\n- You may use tools to inspect the codebase and gather context, but only in ways that preserve the current system state\n\nPROCESS:\n1. Understand the user's requirements\n2. Explore the codebase thoroughly using available tools that do not change system state\n3. Analyze existing patterns, architecture, and conventions\n4. Design a solution that fits the existing codebase\n5. Produce a detailed step-by-step implementation plan\n\nYOUR PLAN MUST INCLUDE:\n- Overview of the approach\n- Specific files to create or modify (with paths)\n- Code sketches or type signatures where helpful\n- Dependencies between steps\n- Critical files for implementation (3-5 key files with justifications)\n\nRemember: You can ONLY explore and plan. You CANNOT modify files or run state-changing commands.";

/// The instructions that a project has for its agents.
#[derive(Debug)]
pub struct ProjectInstructions {
    /// The name of the file that holds them.
    pub file_name: String,
    pub content: String,
}

/// The model of [`ProjectInstructions`].
#[verifier::ext_equal]
pub struct ProjectInstructionsView {
    pub file_name: Seq<char>,
    pub content: Seq<char>,
}

impl DeepView for ProjectInstructions {
    type V = ProjectInstructionsView;

    open spec fn deep_view(&self) -> ProjectInstructionsView {
        ProjectInstructionsView {
            file_name: self.file_name.deep_view(),
            content: self.content.deep_view(),
        }
    }
}

impl Clone for ProjectInstructions {
    fn clone(&self) -> (r: Self)
        ensures
            r.deep_view() == self.deep_view(),
    {
        ProjectInstructions {
            file_name: self.file_name.clone(),
            content: self.content.clone(),
        }
    }
}

/// What a skill adds to the prompt.
#[derive(Debug)]
pub struct SkillPrompt {
    pub name: String,
    pub system_prompt: Option<String>,
}

/// The model of [`SkillPrompt`].
#[verifier::ext_equal]
pub struct SkillPromptView {
    pub name: Seq<char>,
    pub system_prompt: Option<Seq<char>>,
}

impl DeepView for SkillPrompt {
    type V = SkillPromptView;

    open spec fn deep_view(&self) -> SkillPromptView {
        SkillPromptView {
            name: self.name.deep_view(),
            system_prompt: self.system_prompt.deep_view(),
        }
    }
}

impl Clone for SkillPrompt {
    fn clone(&self) -> (r: Self)
        ensures
            r.deep_view() == self.deep_view(),
    {
        let r = SkillPrompt {
            name: self.name.clone(),
            system_prompt: self.system_prompt.clone(),
        };
        assert(r.system_prompt.deep_view() =~= self.system_prompt.deep_view());
        r
    }
}

/// How much of the memory is put into a prompt.
#[derive(Clone, Copy, Debug, PartialEq, Eq, Structural)]
pub enum PromptMemoryMode {
    Disabled,
    IndexOnly,
    TargetedRecall,
}

impl DeepView for PromptMemoryMode {
    type V = PromptMemoryMode;

    open spec fn deep_view(&self) -> PromptMemoryMode {
        *self
    }
}

/// The words that qualify a tool.
pub open spec fn qualifiers(tool: ToolDefinitionView) -> Seq<char> {
    if tool.read_only && tool.idempotent {
        " (read-only, idempotent)"@
    } else if tool.read_only {
        " (read-only)"@
    } else if tool.idempotent {
        " (idempotent)"@
    } else {
        Seq::empty()
    }
}

/// A tool as the prompt describes it.
pub open spec fn tool_line(tool: ToolDefinitionView) -> Seq<char> {
    "- `"@ + tool.name + "`"@ + qualifiers(tool) + ": "@ + tool.description
}

/// The tools as the prompt describes them.
pub open spec fn tool_section(tools: Seq<ToolDefinitionView>) -> Seq<char> {
    if tools.len() == 0 {
        "## Available Tools\n\nNo tools are currently available."@
    } else {
        text::joined(
            seq!["## Available Tools"@, Seq::empty()] + tools.map_values(
                |t: ToolDefinitionView| tool_line(t),
            ),
            "\n"@,
        )
    }
}

/// The tools as the prompt describes them.
pub fn render_available_tool_descriptions(tools: &Vec<ToolDefinition>) -> (r: String)
    ensures
        r@ == tool_section(tools.deep_view()),
{
    if tools.len() == 0 {
        return "## Available Tools\n\nNo tools are currently available.".to_owned();
    }
    let mut lines: Vec<String> = Vec::new();
    lines.push("## Available Tools".to_owned());
    lines.push(String::new());
    let ghost head = seq!["## Available Tools"@, Seq::<char>::empty()];
    let ghost wanted = tools.deep_view().map_values(|t: ToolDefinitionView| tool_line(t));
    let mut i: usize = 0;
    assert(lines.deep_view() =~= head + wanted.take(0));
    while i < tools.len()
        invariant
            i <= tools@.len(),
            wanted == tools.deep_view().map_values(|t: ToolDefinitionView| tool_line(t)),
            lines.deep_view() == head + wanted.take(i as int),
        decreases tools@.len() - i,
    {
        let ghost before = lines.deep_view();
        let tool = &tools[i];
        let mut line = "- `".to_owned();
        line.append(tool.name.as_str());
        line.append("`");
        if tool.read_only && tool.idempotent {
            line.append(" (read-only, idempotent)");
        } else if tool.read_only {
            line.append(" (read-only)");
        } else if tool.idempotent {
            line.append(" (idempotent)");
        } else {
            assert(line@ + Seq::<char>::empty() =~= line@);
        }
        line.append(": ");
        line.append(tool.description.as_str());
        assert(line@ == wanted[i as int]);
        lines.push(line);
        assert(lines.deep_view() =~= before.push(wanted[i as int]));
        assert(lines.deep_view() =~= head + wanted.take(i + 1));
        i = i + 1;
    }
    assert(wanted.take(i as int) =~= wanted);
    text::join(&lines, "\n")
}

/// What the skills add to a prompt, in order.
pub open spec fn skill_parts(skills: Seq<SkillPromptView>) -> Seq<Seq<char>>
    decreases skills.len(),
{
    if skills.len() == 0 {
        Seq::empty()
    } else {
        match skills.last().system_prompt {
            Some(prompt) => skill_parts(skills.drop_last()).push(
                "\n## Skill: "@ + skills.last().name + "\n"@ + prompt,
            ),
            None => skill_parts(skills.drop_last()),
        }
    }
}

/// One part, if it is there.
pub open spec fn optional_part(part: Option<Seq<char>>) -> Seq<Seq<char>> {
    match part {
        Some(part) => seq![part],
        None => Seq::empty(),
    }
}

/// The instructions of a project.
pub open spec fn project_part(instructions: Option<ProjectInstructionsView>) -> Option<Seq<char>> {
    match instructions {
        Some(found) => Some(
            "# Project Instructions (from "@ + found.file_name + ")\n\n"@ + found.content,
        ),
        None => None,
    }
}

/// The parts of the system prompt of a session.
pub open spec fn prompt_parts(
    plan_mode: bool,
    tools: Seq<ToolDefinitionView>,
    instructions: Option<ProjectInstructionsView>,
    base: Option<Seq<char>>,
    skills: Seq<SkillPromptView>,
    suffix: Option<Seq<char>>,
) -> Seq<Seq<char>> {
    optional_part(
        if plan_mode {
            Some(PLAN_MODE_SYSTEM_PROMPT@)
        } else {
            None
        },
    ) + seq![DEFAULT_SYSTEM_PROMPT@, tool_section(tools)] + optional_part(project_part(instructions))
        + optional_part(base) + skill_parts(skills) + optional_part(suffix)
}

/// The system prompt of a session.
pub open spec fn system_prompt(
    plan_mode: bool,
    tools: Seq<ToolDefinitionView>,
    instructions: Option<ProjectInstructionsView>,
    base: Option<Seq<char>>,
    skills: Seq<SkillPromptView>,
    suffix: Option<Seq<char>>,
) -> Seq<char> {
    text::joined(prompt_parts(plan_mode, tools, instructions, base, skills, suffix), "\n\n"@)
}

/// The system prompt of a session, from its mode, its tools, the instructions of its
/// project, its own base prompt, its skills and what its memory adds.
pub fn build_combined_system_prompt(
    plan_mode: bool,
    tools: &Vec<ToolDefinition>,
    instructions: &Option<ProjectInstructions>,
    base: &Option<String>,
    skills: &Vec<SkillPrompt>,
    prompt_memory_suffix: &Option<String>,
) -> (r: String)
    ensures
        r@ == system_prompt(
            plan_mode,
            tools.deep_view(),
            instructions.deep_view(),
            base.deep_view(),
            skills.deep_view(),
            prompt_memory_suffix.deep_view(),
        ),
{
    let mut parts: Vec<String> = Vec::new();
    if plan_mode {
        parts.push(PLAN_MODE_SYSTEM_PROMPT.to_owned());
    }
    let ghost mode_part = optional_part(
        if plan_mode {
            Some(PLAN_MODE_SYSTEM_PROMPT@)
        } else {
            None
        },
    );
    assert(parts.deep_view() =~= mode_part);
    parts.push(DEFAULT_SYSTEM_PROMPT.to_owned());
    let section = render_available_tool_descriptions(tools);
    parts.push(section);
    let ghost p2 = mode_part + seq![DEFAULT_SYSTEM_PROMPT@, tool_section(tools.deep_view())];
    assert(parts.deep_view() =~= p2);
    match instructions {
        Some(found) => {
            let mut part = "# Project Instructions (from ".to_owned();
            part.append(found.file_name.as_str());
            part.append(")\n\n");
            part.append(found.content.as_str());
            parts.push(part);
        },
        None => {},
    }
    let ghost p3 = p2 + optional_part(project_part(instructions.deep_view()));
    assert(parts.deep_view() =~= p3);
    match base {
        Some(base) => {
            parts.push(base.clone());
        },
        None => {},
    }
    let ghost p4 = p3 + optional_part(base.deep_view());
    assert(parts.deep_view() =~= p4);
    let ghost all = skills.deep_view();
    let mut i: usize = 0;
    assert(all.take(0) =~= Seq::empty());
    assert(parts.deep_view() =~= p4 + skill_parts(all.take(0)));
    while i < skills.len()
        invariant
            i <= skills@.len(),
            all == skills.deep_view(),
            parts.deep_view() == p4 + skill_parts(all.take(i as int)),
        decreases skills@.len() - i,
    {
        assert(all.take(i + 1).drop_last() =~= all.take(i as int));
        assert(all.take(i + 1).last() == skills@[i as int].deep_view());
        let ghost before = parts.deep_view();
        match &skills[i].system_prompt {
            Some(prompt) => {
                let mut part = "\n## Skill: ".to_owned();
                part.append(skills[i].name.as_str());
                part.append("\n");
                part.append(prompt.as_str());
                parts.push(part);
                assert(parts.deep_view() =~= before.push(part@));
                assert(parts.deep_view() =~= p4 + skill_parts(all.take(i + 1)));
            },
            None => {},
        }
        i = i + 1;
    }
    assert(all.take(i as int) =~= all);
    let ghost p5 = p4 + skill_parts(all);
    match prompt_memory_suffix {
        Some(suffix) => {
            parts.push(suffix.clone());
        },
        None => {},
    }
    assert(parts.deep_view() =~= p5 + optional_part(prompt_memory_suffix.deep_view()));
    text::join(&parts, "\n\n")
}

/// The words of a text in lower case.
pub open spec fn text_tokens(content: Seq<char>) -> Seq<Seq<char>> {
    text::word_list(content).map_values(|w: Seq<char>| text::lowered(w))
}

/// The tokens of the calls of a message.
pub open spec fn call_tokens(calls: Seq<ToolUseRequestView>) -> Seq<Seq<char>>
    decreases calls.len(),
{
    if calls.len() == 0 {
        Seq::empty()
    } else {
        let call = calls.last();
        call_tokens(calls.drop_last()) + seq![
            "tool_call:"@ + call.tool_name,
            "tool_use_id:"@ + call.tool_use_id,
        ] + text_tokens(call.arguments.json())
    }
}

/// The tokens of a message.
pub open spec fn message_tokens(message: MessageView) -> Seq<Seq<char>> {
    seq!["role:"@ + role_text(message.role)] + (match message.content {
        MessageContentView::Text(content) => text_tokens(content),
        MessageContentView::ToolResult { tool_use_id, output, is_error } => seq![
            "tool_use_id:"@ + tool_use_id,
            "tool_error:"@ + text::flag_text(is_error),
        ] + text_tokens(output),
        MessageContentView::ToolUse { text: said, tool_calls } => (match said {
            Some(content) => text_tokens(content),
            None => Seq::empty(),
        }) + call_tokens(tool_calls),
    })
}

/// The tokens of the messages, in order.
pub open spec fn history_tokens(messages: Seq<MessageView>) -> Seq<Seq<char>>
    decreases messages.len(),
{
    if messages.len() == 0 {
        Seq::empty()
    } else {
        history_tokens(messages.drop_last()) + message_tokens(messages.last())
    }
}

/// The tools with one more put behind all those whose name is not greater, from the end.
pub open spec fn insert_tool(
    tools: Seq<ToolDefinitionView>,
    tool: ToolDefinitionView,
) -> Seq<ToolDefinitionView>
    decreases tools.len(),
{
    if tools.len() == 0 || text::text_le(tools.last().name, tool.name) {
        tools.push(tool)
    } else {
        insert_tool(tools.drop_last(), tool).push(tools.last())
    }
}

/// The tools in the order of their names; tools of one name keep their order.
pub open spec fn sorted_tools(tools: Seq<ToolDefinitionView>) -> Seq<ToolDefinitionView>
    decreases tools.len(),
{
    if tools.len() == 0 {
        tools
    } else {
        insert_tool(sorted_tools(tools.drop_last()), tools.last())
    }
}

/// The tokens of the tools, in order.
pub open spec fn tool_tokens(tools: Seq<ToolDefinitionView>) -> Seq<Seq<char>>
    decreases tools.len(),
{
    if tools.len() == 0 {
        Seq::empty()
    } else {
        let tool = tools.last();
        tool_tokens(tools.drop_last()) + seq![
            "tool:"@ + tool.name,
            "tool_ro:"@ + text::flag_text(tool.read_only),
            "tool_idempotent:"@ + text::flag_text(tool.idempotent),
        ] + text_tokens(tool.description) + text_tokens(tool.parameters)
    }
}

/// The tokens by which the prompts of two calls of the model are compared.
pub open spec fn cache_tokens(
    messages: Seq<MessageView>,
    tools: Seq<ToolDefinitionView>,
) -> Seq<Seq<char>> {
    history_tokens(messages) + tool_tokens(sorted_tools(tools))
}

/// Whether the names are in order.
pub open spec fn names_in_order(tools: Seq<ToolDefinitionView>) -> bool {
    forall|i: int, j: int|
        0 <= i < j < tools.len() ==> text::text_le((#[trigger] tools[i]).name, (#[trigger] tools[j]).name)
}

proof fn lemma_insert_tool(tools: Seq<ToolDefinitionView>, tool: ToolDefinitionView)
    requires
        names_in_order(tools),
    ensures
        names_in_order(insert_tool(tools, tool)),
        insert_tool(tools, tool).to_multiset() == tools.to_multiset().insert(tool),
        forall|x: ToolDefinitionView| #[trigger]
            insert_tool(tools, tool).contains(x) ==> x == tool || tools.contains(x),
    decreases tools.len(),
{
    broadcast use vstd::seq_lib::group_to_multiset_ensures;

    let out = insert_tool(tools, tool);
    if tools.len() == 0 || text::text_le(tools.last().name, tool.name) {
        assert forall|i: int, j: int| 0 <= i < j < out.len() implies text::text_le(
            (#[trigger] out[i]).name,
            (#[trigger] out[j]).name,
        ) by {
            if j == tools.len() && i < tools.len() - 1 {
                assert(text::text_le(tools[i].name, tools[tools.len() - 1].name));
                text::lemma_text_le_transitive(tools[i].name, tools.last().name, tool.name);
            }
        }
        assert forall|x: ToolDefinitionView| #[trigger] out.contains(x) implies x == tool
            || tools.contains(x) by {
            let k = choose|k: int| 0 <= k < out.len() && out[k] == x;
            if k < tools.len() {
                assert(tools[k] == x);
            }
        }
    } else {
        let front = tools.drop_last();
        let last = tools.last();
        lemma_insert_tool(front, tool);
        let inner = insert_tool(front, tool);
        text::lemma_text_le_total(tool.name, last.name);
        assert forall|i: int, j: int| 0 <= i < j < out.len() implies text::text_le(
            (#[trigger] out[i]).name,
            (#[trigger] out[j]).name,
        ) by {
            if j == inner.len() {
                assert(inner.contains(inner[i]));
                if inner[i] != tool {
                    assert(front.contains(inner[i]));
                    let k = choose|k: int| 0 <= k < front.len() && front[k] == inner[i];
                    assert(text::text_le(tools[k].name, tools[tools.len() - 1].name));
                }
            } else {
                assert(text::text_le(inner[i].name, inner[j].name));
            }
        }
        assert(front.push(last) =~= tools);
        assert(out.to_multiset() =~= tools.to_multiset().insert(tool));
        assert forall|x: ToolDefinitionView| #[trigger] out.contains(x) implies x == tool
            || tools.contains(x) by {
            let k = choose|k: int| 0 <= k < out.len() && out[k] == x;
            if k < inner.len() {
                assert(inner.contains(inner[k]));
                if x != tool {
                    let m = choose|m: int| 0 <= m < front.len() && front[m] == x;
                    assert(tools[m] == x);
                }
            } else {
                assert(tools[tools.len() - 1] == x);
            }
        }
    }
}

/// The sorted tools are the same tools, each as often as before, in the order of their names.
pub proof fn law_sorted_tools(tools: Seq<ToolDefinitionView>)
    ensures
        names_in_order(sorted_tools(tools)),
        sorted_tools(tools).to_multiset() == tools.to_multiset(),
    decreases tools.len(),
{
    broadcast use vstd::seq_lib::group_to_multiset_ensures;

    if tools.len() > 0 {
        law_sorted_tools(tools.drop_last());
        lemma_insert_tool(sorted_tools(tools.drop_last()), tools.last());
        assert(tools.drop_last().push(tools.last()) =~= tools);
    }
}

/// Whether no two tools have one name.
pub open spec fn names_differ(tools: Seq<ToolDefinitionView>) -> bool {
    forall|i: int, j: int|
        0 <= i < j < tools.len() ==> (#[trigger] tools[i]).name != (#[trigger] tools[j]).name
}

/// In a collection of tools no two have one name, and none stands twice.
spec fn named_apart(tools: Multiset<ToolDefinitionView>) -> bool {
    &&& forall|x: ToolDefinitionView| #[trigger] tools.count(x) <= 1
    &&& forall|x: ToolDefinitionView, y: ToolDefinitionView|
        #[trigger] tools.count(x) > 0 && #[trigger] tools.count(y) > 0 && x.name == y.name
            ==> x == y
}

proof fn lemma_named_apart(tools: Seq<ToolDefinitionView>)
    requires
        names_differ(tools),
    ensures
        named_apart(tools.to_multiset()),
{
    broadcast use vstd::seq_lib::group_to_multiset_ensures;

    assert(tools.no_duplicates());
    tools.lemma_multiset_has_no_duplicates();
    assert forall|x: ToolDefinitionView, y: ToolDefinitionView|
        #[trigger] tools.to_multiset().count(x) > 0 && #[trigger] tools.to_multiset().count(y) > 0
            && x.name == y.name implies x == y by {
        assert(tools.contains(x) && tools.contains(y));
        let i = choose|i: int| 0 <= i < tools.len() && tools[i] == x;
        let j = choose|j: int| 0 <= j < tools.len() && tools[j] == y;
        if i < j {
            assert(tools[i].name != tools[j].name);
        } else if j < i {
            assert(tools[j].name != tools[i].name);
        }
    }
    assert forall|x: ToolDefinitionView| #[trigger] tools.to_multiset().count(x) <= 1 by {
        if tools.to_multiset().contains(x) {
            assert(tools.to_multiset().count(x) == 1);
        }
    }
}

/// The order of tools by name is the only one, where no two have one name.
proof fn lemma_one_order(first: Seq<ToolDefinitionView>, second: Seq<ToolDefinitionView>)
    requires
        names_in_order(first),
        names_in_order(second),
        first.to_multiset() == second.to_multiset(),
        named_apart(first.to_multiset()),
    ensures
        first == second,
    decreases first.len(),
{
    broadcast use vstd::seq_lib::group_to_multiset_ensures;

    assert(first.to_multiset().len() == first.len());
    assert(second.to_multiset().len() == second.len());
    if first.len() > 0 {
        let a = first.last();
        let b = second.last();
        assert(first.contains(a) && second.contains(b));
        assert(second.to_multiset().count(a) > 0);
        assert(first.to_multiset().count(b) > 0);
        assert(second.contains(a) && first.contains(b));
        let i = choose|i: int| 0 <= i < second.len() && second[i] == a;
        let j = choose|j: int| 0 <= j < first.len() && first[j] == b;
        if i < second.len() - 1 {
            assert(text::text_le(second[i].name, second[second.len() - 1].name));
        } else {
            text::lemma_text_le_total(a.name, a.name);
        }
        if j < first.len() - 1 {
            assert(text::text_le(first[j].name, first[first.len() - 1].name));
        } else {
            text::lemma_text_le_total(b.name, b.name);
        }
        text::lemma_text_le_antisymmetric(a.name, b.name);
        assert(a == b);
        let front = first.drop_last();
        let other = second.drop_last();
        assert(front.push(a) =~= first);
        assert(other.push(a) =~= second);
        assert(front.to_multiset() =~= first.to_multiset().remove(a));
        assert(other.to_multiset() =~= second.to_multiset().remove(a));
        assert forall|x: ToolDefinitionView| #[trigger] front.to_multiset().count(x) <= 1 by {
            assert(first.to_multiset().count(x) <= 1);
        }
        assert forall|x: ToolDefinitionView, y: ToolDefinitionView|
            #[trigger] front.to_multiset().count(x) > 0 && #[trigger] front.to_multiset().count(y)
                > 0 && x.name == y.name implies x == y by {
            assert(first.to_multiset().count(x) > 0 && first.to_multiset().count(y) > 0);
        }
        lemma_one_order(front, other);
    } else {
        assert(first =~= second);
    }
}

/// The order in which tools are given does not matter to the tokens of a prompt, where no two
/// tools have one name.
pub proof fn law_tool_order_does_not_matter(
    messages: Seq<MessageView>,
    tools: Seq<ToolDefinitionView>,
    other: Seq<ToolDefinitionView>,
)
    requires
        names_differ(tools),
        tools.to_multiset() == other.to_multiset(),
    ensures
        cache_tokens(messages, tools) == cache_tokens(messages, other),
{
    lemma_named_apart(tools);
    law_sorted_tools(tools);
    law_sorted_tools(other);
    lemma_one_order(sorted_tools(tools), sorted_tools(other));
}

/// The tokens of messages are those of the first ones and then those of the others.
pub proof fn law_tokens_add_up(first: Seq<MessageView>, second: Seq<MessageView>)
    ensures
        history_tokens(first + second) == history_tokens(first) + history_tokens(second),
        cache_tokens(first + second, Seq::empty()) == cache_tokens(first, Seq::empty())
            + cache_tokens(second, Seq::empty()),
    decreases second.len(),
{
    let none = Seq::<ToolDefinitionView>::empty();
    assert(sorted_tools(none) =~= none);
    assert(tool_tokens(none) =~= Seq::empty());
    if second.len() == 0 {
        assert(first + second =~= first);
        assert(history_tokens(first) + history_tokens(second) =~= history_tokens(first));
    } else {
        let both = first + second;
        law_tokens_add_up(first, second.drop_last());
        assert(both.drop_last() =~= first + second.drop_last());
        assert(history_tokens(both) =~= history_tokens(first) + history_tokens(second));
    }
    assert(cache_tokens(first + second, none) =~= cache_tokens(first, none) + cache_tokens(
        second,
        none,
    ));
}

/// Appends the words of a text in lower case.
fn push_text_tokens(tokens: &mut Vec<String>, content: &str)
    ensures
        final(tokens).deep_view() == old(tokens).deep_view() + text_tokens(content@),
{
    let words = text::words(content);
    let ghost start = tokens.deep_view();
    let ghost wanted = text_tokens(content@);
    let mut i: usize = 0;
    assert(tokens.deep_view() =~= start + wanted.take(0));
    while i < words.len()
        invariant
            i <= words@.len(),
            words.deep_view() == text::word_list(content@),
            wanted == text_tokens(content@),
            tokens.deep_view() == start + wanted.take(i as int),
        decreases words@.len() - i,
    {
        let ghost before = tokens.deep_view();
        assert(words.deep_view()[i as int] == words@[i as int]@);
        tokens.push(text::lower(words[i].as_str()));
        assert(tokens.deep_view() =~= before.push(wanted[i as int]));
        assert(tokens.deep_view() =~= start + wanted.take(i + 1));
        i = i + 1;
    }
    assert(wanted.take(i as int) =~= wanted);
}

/// Appends one token: a label and a value.
fn push_token(tokens: &mut Vec<String>, label: &str, value: &str)
    ensures
        final(tokens).deep_view() == old(tokens).deep_view().push(label@ + value@),
{
    let mut token = label.to_owned();
    token.append(value);
    let ghost before = tokens.deep_view();
    tokens.push(token);
    assert(tokens.deep_view() =~= before.push(label@ + value@));
}

/// The word for a flag.
fn flag_label(flag: bool) -> (r: &'static str)
    ensures
        r@ == text::flag_text(flag),
{
    if flag {
        "true"
    } else {
        "false"
    }
}

/// Appends the tokens of the calls of a message.
fn push_call_tokens(tokens: &mut Vec<String>, calls: &Vec<ToolUseRequest>)
    ensures
        final(tokens).deep_view() == old(tokens).deep_view() + call_tokens(calls.deep_view()),
{
    let ghost start = tokens.deep_view();
    let ghost all = calls.deep_view();
    let mut i: usize = 0;
    assert(all.take(0) =~= Seq::empty());
    assert(tokens.deep_view() =~= start + call_tokens(all.take(0)));
    while i < calls.len()
        invariant
            i <= calls@.len(),
            all == calls.deep_view(),
            tokens.deep_view() == start + call_tokens(all.take(i as int)),
        decreases calls@.len() - i,
    {
        assert(all.take(i + 1).drop_last() =~= all.take(i as int));
        assert(all.take(i + 1).last() == calls@[i as int].deep_view());
        push_token(tokens, "tool_call:", calls[i].tool_name.as_str());
        push_token(tokens, "tool_use_id:", calls[i].tool_use_id.as_str());
        let json = calls[i].arguments.json();
        push_text_tokens(tokens, json.as_str());
        assert(tokens.deep_view() =~= start + call_tokens(all.take(i + 1)));
        i = i + 1;
    }
    assert(all.take(i as int) =~= all);
}

/// Appends the tokens of a message.
fn push_message_tokens(tokens: &mut Vec<String>, message: &Message)
    ensures
        final(tokens).deep_view() == old(tokens).deep_view() + message_tokens(
            message.deep_view(),
        ),
{
    let ghost start = tokens.deep_view();
    push_token(tokens, "role:", role_label(message.role));
    match &message.content {
        MessageContent::Text(content) => {
            push_text_tokens(tokens, content.as_str());
        },
        MessageContent::ToolResult { tool_use_id, output, is_error } => {
            push_token(tokens, "tool_use_id:", tool_use_id.as_str());
            push_token(tokens, "tool_error:", flag_label(*is_error));
            push_text_tokens(tokens, output.as_str());
        },
        MessageContent::ToolUse { text: said, tool_calls } => {
            if let Some(content) = said {
                push_text_tokens(tokens, content.as_str());
            }
            push_call_tokens(tokens, tool_calls);
        },
    }
    assert(tokens.deep_view() =~= start + message_tokens(message.deep_view()));
}

/// The tools in the order of their names.
pub fn sort_tools(tools: &Vec<ToolDefinition>) -> (r: Vec<ToolDefinition>)
    ensures
        r.deep_view() == sorted_tools(tools.deep_view()),
{
    let mut r: Vec<ToolDefinition> = Vec::new();
    let ghost all = tools.deep_view();
    let mut i: usize = 0;
    assert(r.deep_view() =~= sorted_tools(all.take(0)));
    while i < tools.len()
        invariant
            i <= tools@.len(),
            all == tools.deep_view(),
            r.deep_view() == sorted_tools(all.take(i as int)),
        decreases tools@.len() - i,
    {
        assert(all.take(i + 1).drop_last() =~= all.take(i as int));
        assert(all.take(i + 1).last() == tools@[i as int].deep_view());
        let ghost before = r.deep_view();
        let ghost tool = tools@[i as int].deep_view();
        let mut at: usize = r.len();
        assert(before.take(at as int) =~= before);
        assert(before.skip(at as int) =~= Seq::empty());
        assert(insert_tool(before, tool) =~= insert_tool(before.take(at as int), tool)
            + before.skip(at as int));
        while at > 0 && !text::not_greater(r[at - 1].name.as_str(), tools[i].name.as_str())
            invariant
                at <= r@.len(),
                i < tools@.len(),
                tool == tools@[i as int].deep_view(),
                before == r.deep_view(),
                insert_tool(before, tool) == insert_tool(before.take(at as int), tool)
                    + before.skip(at as int),
            decreases at,
        {
            let ghost part = before.take(at as int);
            assert(part.last() == r@[at - 1].deep_view());
            assert(part.drop_last() =~= before.take(at - 1));
            assert(insert_tool(part, tool) =~= insert_tool(before.take(at - 1), tool).push(
                before[at - 1],
            ));
            assert(insert_tool(before, tool) =~= insert_tool(before.take(at - 1), tool)
                + before.skip(at - 1));
            at = at - 1;
        }
        proof {
            let part = before.take(at as int);
            if at > 0 {
                assert(part.last() == r@[at - 1].deep_view());
            }
            assert(insert_tool(part, tool) == part.push(tool));
            assert(insert_tool(before, tool) =~= before.insert(at as int, tool));
        }
        r.insert(at, tools[i].clone());
        assert(r.deep_view() =~= before.insert(at as int, tool));
        i = i + 1;
    }
    assert(all.take(i as int) =~= all);
    r
}

/// The tokens by which the prompts of two calls of the model are compared.
pub fn canonicalize_prompt_cache_tokens(
    messages: &Vec<Message>,
    tools: &Vec<ToolDefinition>,
) -> (r: Vec<String>)
    ensures
        r.deep_view() == cache_tokens(messages.deep_view(), tools.deep_view()),
{
    let mut tokens: Vec<String> = Vec::new();
    let ghost all = messages.deep_view();
    let mut i: usize = 0;
    assert(tokens.deep_view() =~= history_tokens(all.take(0)));
    while i < messages.len()
        invariant
            i <= messages@.len(),
            all == messages.deep_view(),
            tokens.deep_view() == history_tokens(all.take(i as int)),
        decreases messages@.len() - i,
    {
        assert(all.take(i + 1).drop_last() =~= all.take(i as int));
        assert(all.take(i + 1).last() == messages@[i as int].deep_view());
        push_message_tokens(&mut tokens, &messages[i]);
        i = i + 1;
    }
    assert(all.take(i as int) =~= all);
    let ghost front = tokens.deep_view();
    let sorted = sort_tools(tools);
    let ghost every = sorted.deep_view();
    let mut k: usize = 0;
    assert(tokens.deep_view() =~= front + tool_tokens(every.take(0)));
    while k < sorted.len()
        invariant
            k <= sorted@.len(),
            every == sorted.deep_view(),
            tokens.deep_view() == front + tool_tokens(every.take(k as int)),
        decreases sorted@.len() - k,
    {
        assert(every.take(k + 1).drop_last() =~= every.take(k as int));
        assert(every.take(k + 1).last() == sorted@[k as int].deep_view());
        let tool = &sorted[k];
        push_token(&mut tokens, "tool:", tool.name.as_str());
        push_token(&mut tokens, "tool_ro:", flag_label(tool.read_only));
        push_token(&mut tokens, "tool_idempotent:", flag_label(tool.idempotent));
        push_text_tokens(&mut tokens, tool.description.as_str());
        push_text_tokens(&mut tokens, tool.parameters.as_str());
        assert(tokens.deep_view() =~= front + tool_tokens(every.take(k + 1)));
        k = k + 1;
    }
    assert(every.take(k as int) =~= every);
    tokens
}

/// The length of the longest common beginning.
pub open spec fn shared_prefix(a: Seq<Seq<char>>, b: Seq<Seq<char>>) -> nat
    decreases a.len(),
{
    if a.len() == 0 || b.len() == 0 || a[0] != b[0] {
        0
    } else {
        1 + shared_prefix(a.drop_first(), b.drop_first())
    }
}

/// The shared beginning is shared, and no longer one is.
pub proof fn law_shared_prefix(a: Seq<Seq<char>>, b: Seq<Seq<char>>)
    ensures
        shared_prefix(a, b) <= a.len(),
        shared_prefix(a, b) <= b.len(),
        a.take(shared_prefix(a, b) as int) == b.take(shared_prefix(a, b) as int),
        shared_prefix(a, b) < a.len() && shared_prefix(a, b) < b.len()
            ==> a[shared_prefix(a, b) as int] != b[shared_prefix(a, b) as int],
    decreases a.len(),
{
    if a.len() > 0 && b.len() > 0 && a[0] == b[0] {
        let x = a.drop_first();
        let y = b.drop_first();
        law_shared_prefix(x, y);
        let n = shared_prefix(x, y) as int;
        assert forall|i: int| 0 <= i < n + 1 implies a[i] == b[i] by {
            if i > 0 {
                assert(x.take(n)[i - 1] == y.take(n)[i - 1]);
            }
        }
        assert(a.take(n + 1) =~= b.take(n + 1));
    } else {
        assert(a.take(0) =~= b.take(0));
    }
}

/// How much of a prompt was in the prompt before it.
pub open spec fn cache_usage(previous: Option<Seq<Seq<char>>>, current: Seq<Seq<char>>) -> (
    nat,
    nat,
) {
    let hit = match previous {
        Some(previous) => shared_prefix(previous, current),
        None => 0,
    };
    (hit, (current.len() - hit) as nat)
}

/// How much of a prompt was in the prompt before it, token by token from the start.
pub fn estimate_prompt_cache_usage(
    previous_tokens: &Option<Vec<String>>,
    current_tokens: &Vec<String>,
) -> (r: PromptCacheUsage)
    ensures
        (r.estimated_hit_tokens as nat, r.estimated_miss_tokens as nat) == cache_usage(
            previous_tokens.deep_view(),
            current_tokens.deep_view(),
        ),
        r.estimated_hit_tokens + r.estimated_miss_tokens == current_tokens@.len(),
{
    let mut hit: usize = 0;
    if let Some(previous) = previous_tokens {
        let ghost a = previous.deep_view();
        let ghost b = current_tokens.deep_view();
        assert(a.skip(0) =~= a);
        assert(b.skip(0) =~= b);
        while hit < previous.len() && hit < current_tokens.len() && text::same(
            previous[hit].as_str(),
            current_tokens[hit].as_str(),
        )
            invariant
                hit <= previous@.len(),
                hit <= current_tokens@.len(),
                a == previous.deep_view(),
                b == current_tokens.deep_view(),
                shared_prefix(a, b) == hit + shared_prefix(a.skip(hit as int), b.skip(hit as int)),
            decreases previous@.len() - hit,
        {
            assert(a.skip(hit as int).drop_first() =~= a.skip(hit + 1));
            assert(b.skip(hit as int).drop_first() =~= b.skip(hit + 1));
            hit = hit + 1;
        }
        assert(shared_prefix(a.skip(hit as int), b.skip(hit as int)) == 0);
    }
    PromptCacheUsage {
        estimated_hit_tokens: hit as u64,
        estimated_miss_tokens: (current_tokens.len() - hit) as u64,
    }
}

/// Whether a character is a quotation mark.
pub open spec fn is_quote(c: char) -> bool {
    c == '"' || c == '\''
}

/// What is left of a text without the quotation marks at its beginning.
pub open spec fn unquote_start(s: Seq<char>) -> Seq<char>
    decreases s.len(),
{
    if s.len() > 0 && is_quote(s[0]) {
        unquote_start(s.drop_first())
    } else {
        s
    }
}

/// What is left of a text without the quotation marks at its end.
pub open spec fn unquote_end(s: Seq<char>) -> Seq<char>
    decreases s.len(),
{
    if s.len() > 0 && is_quote(s.last()) {
        unquote_end(s.drop_last())
    } else {
        s
    }
}

/// The one-line summary of a session: trimmed, without quotation marks around it, with
/// single spaces between its words, and at most 200 characters long.
pub open spec fn listing_summary(summary: Seq<char>) -> Option<Seq<char>> {
    let bare = unquote_end(unquote_start(text::trimmed(summary)));
    let line = text::joined(text::word_list(bare), " "@);
    if line.len() == 0 {
        None
    } else {
        Some(text::first_chars(line, 200))
    }
}

/// The text without quotation marks around it.
fn unquote(s: &str) -> (r: String)
    ensures
        r@ == unquote_end(unquote_start(s@)),
{
    let chars = text::chars_of(s);
    let mut start: usize = 0;
    assert(chars@.skip(0) =~= chars@);
    while start < chars.len() && (chars[start] == '"' || chars[start] == '\'')
        invariant
            start <= chars@.len(),
            unquote_start(chars@) == unquote_start(chars@.skip(start as int)),
        decreases chars@.len() - start,
    {
        assert(chars@.skip(start as int).drop_first() =~= chars@.skip(start + 1));
        start = start + 1;
    }
    let mut end: usize = chars.len();
    let ghost rest = chars@.skip(start as int);
    assert(chars@.subrange(start as int, end as int) =~= rest);
    while end > start && (chars[end - 1] == '"' || chars[end - 1] == '\'')
        invariant
            start <= end <= chars@.len(),
            rest == chars@.skip(start as int),
            unquote_end(rest) == unquote_end(chars@.subrange(start as int, end as int)),
        decreases end,
    {
        assert(chars@.subrange(start as int, end as int).drop_last() =~= chars@.subrange(
            start as int,
            end - 1,
        ));
        end = end - 1;
    }
    text::text_between(&chars, start, end)
}

/// The one-line summary of a session, made of what the model returned.
pub fn normalize_listing_summary(summary: &str) -> (r: Option<String>)
    ensures
        r.deep_view() == listing_summary(summary@),
{
    let trimmed = text::trim(summary);
    let bare = unquote(trimmed.as_str());
    let words = text::words(bare.as_str());
    let line = text::join(&words, " ");
    if line.as_str().is_empty() {
        None
    } else {
        Some(text::take_chars(line.as_str(), 200))
    }
}

/// The messages that ask the model for the one-line summary of a session.
pub fn listing_summary_messages(session_summary_markdown: &str) -> (r: Vec<Message>)
    ensures
        r.deep_view() == seq![
            text_message(
                Role::System,
                "You generate session list summaries for a coding-agent UI. Reply with exactly one concise sentence describing the current session. Do not use bullets, prefixes, or markdown."@,
            ),
            text_message(
                Role::User,
                "Session memory summary:\n\n"@ + session_summary_markdown@
                    + "\n\nReturn one sentence, 6 to 18 words, focused on the current task and most relevant progress."@,
            ),
        ],
{
    let system = "You generate session list summaries for a coding-agent UI. Reply with exactly one concise sentence describing the current session. Do not use bullets, prefixes, or markdown.".to_owned();
    let mut request = "Session memory summary:\n\n".to_owned();
    request.append(session_summary_markdown);
    request.append("\n\nReturn one sentence, 6 to 18 words, focused on the current task and most relevant progress.");
    let mut r: Vec<Message> = Vec::new();
    r.push(Message::system(system));
    r.push(Message::user(request));
    assert(r.deep_view() =~= seq![r@[0].deep_view(), r@[1].deep_view()]);
    r
}

/// The mode that a setting stands for.
pub open spec fn memory_mode(setting: Option<Seq<char>>) -> PromptMemoryMode {
    match setting {
        Some(value) => {
            let v = text::lowered(value);
            if v == "index_only"@ || v == "index"@ {
                PromptMemoryMode::IndexOnly
            } else if v == "targeted_recall"@ || v == "targeted"@ || v == "recall"@ {
                PromptMemoryMode::TargetedRecall
            } else {
                PromptMemoryMode::Disabled
            }
        },
        None => PromptMemoryMode::Disabled,
    }
}

/// The mode that the value of a setting stands for.
pub fn prompt_memory_mode(setting: &Option<String>) -> (r: PromptMemoryMode)
    ensures
        r == memory_mode(setting.deep_view()),
{
    match setting {
        Some(value) => {
            let v = text::lower(value.as_str());
            if text::same(v.as_str(), "index_only") || text::same(v.as_str(), "index") {
                PromptMemoryMode::IndexOnly
            } else if text::same(v.as_str(), "targeted_recall") || text::same(
                v.as_str(),
                "targeted",
            ) || text::same(v.as_str(), "recall") {
                PromptMemoryMode::TargetedRecall
            } else {
                PromptMemoryMode::Disabled
            }
        },
        None => PromptMemoryMode::Disabled,
    }
}

/// What was chosen of the memory for the last request, as long as the user has not written
/// since.
pub fn previous_selection(
    history: &Vec<Message>,
    last_user_index: Option<usize>,
    selected: &Vec<String>,
) -> (r: Vec<String>)
    ensures
        r.deep_view() == (if (match last_user_index {
            Some(i) => Some(i as int),
            None => None,
        }) == last_user(history.deep_view()) {
            selected.deep_view()
        } else {
            Seq::empty()
        }),
{
    let now = latest_user_message_index(history);
    let unchanged = match (now, last_user_index) {
        (Some(a), Some(b)) => a == b,
        (None, None) => true,
        _ => false,
    };
    if unchanged {
        let r = selected.clone();
        assert(r.deep_view() =~= selected.deep_view());
        r
    } else {
        let r: Vec<String> = Vec::new();
        assert(r.deep_view() =~= Seq::empty());
        r
    }
}

} // verus!
