//! Messages between a session and its model, and the tools that the model may call.

use vstd::prelude::*;
use vstd::string::*;

use crate::arguments::{Arguments, ArgumentsView};

verus! {

/// Who a message is from.
#[derive(Clone, Copy, Debug, PartialEq, Eq, Structural)]
pub enum Role {
    System,
    User,
    Assistant,
    Tool,
}

impl DeepView for Role {
    type V = Role;

    open spec fn deep_view(&self) -> Role {
        *self
    }
}

/// A tool call as the history records it.
#[derive(Debug)]
pub struct ToolUseRequest {
    pub tool_use_id: String,
    pub tool_name: String,
    pub arguments: Arguments,
}

/// The model of [`ToolUseRequest`].
#[verifier::ext_equal]
pub struct ToolUseRequestView {
    pub tool_use_id: Seq<char>,
    pub tool_name: Seq<char>,
    pub arguments: ArgumentsView,
}

impl DeepView for ToolUseRequest {
    type V = ToolUseRequestView;

    open spec fn deep_view(&self) -> ToolUseRequestView {
        ToolUseRequestView {
            tool_use_id: self.tool_use_id.deep_view(),
            tool_name: self.tool_name.deep_view(),
            arguments: self.arguments.deep_view(),
        }
    }
}

impl Clone for ToolUseRequest {
    fn clone(&self) -> (r: Self)
        ensures
            r.deep_view() == self.deep_view(),
    {
        ToolUseRequest {
            tool_use_id: self.tool_use_id.clone(),
            tool_name: self.tool_name.clone(),
            arguments: self.arguments.clone(),
        }
    }
}

/// What a message holds.
#[derive(Debug)]
pub enum MessageContent {
    Text(String),
    ToolUse { text: Option<String>, tool_calls: Vec<ToolUseRequest> },
    ToolResult { tool_use_id: String, output: String, is_error: bool },
}

/// The model of [`MessageContent`].
#[verifier::ext_equal]
pub enum MessageContentView {
    Text(Seq<char>),
    ToolUse { text: Option<Seq<char>>, tool_calls: Seq<ToolUseRequestView> },
    ToolResult { tool_use_id: Seq<char>, output: Seq<char>, is_error: bool },
}

impl DeepView for MessageContent {
    type V = MessageContentView;

    open spec fn deep_view(&self) -> MessageContentView {
        match *self {
            MessageContent::Text(value) => MessageContentView::Text(value.deep_view()),
            MessageContent::ToolUse { text, tool_calls } => MessageContentView::ToolUse {
                text: text.deep_view(),
                tool_calls: tool_calls.deep_view(),
            },
            MessageContent::ToolResult {
                tool_use_id,
                output,
                is_error,
            } => MessageContentView::ToolResult {
                tool_use_id: tool_use_id.deep_view(),
                output: output.deep_view(),
                is_error,
            },
        }
    }
}

impl Clone for MessageContent {
    fn clone(&self) -> (r: Self)
        ensures
            r.deep_view() == self.deep_view(),
    {
        match self {
            MessageContent::Text(value) => MessageContent::Text(value.clone()),
            MessageContent::ToolUse { text, tool_calls } => {
                let new_text = text.clone();
                assert(new_text.deep_view() =~= text.deep_view());
                let new_tool_calls = tool_calls.clone();
                assert(new_tool_calls.deep_view() =~= tool_calls.deep_view());
                MessageContent::ToolUse { text: new_text, tool_calls: new_tool_calls }
            },
            MessageContent::ToolResult { tool_use_id, output, is_error } => {
                MessageContent::ToolResult {
                    tool_use_id: tool_use_id.clone(),
                    output: output.clone(),
                    is_error: *is_error,
                }
            },
        }
    }
}

/// A message of a conversation.
#[derive(Debug)]
pub struct Message {
    pub role: Role,
    pub content: MessageContent,
}

/// The model of [`Message`].
#[verifier::ext_equal]
pub struct MessageView {
    pub role: Role,
    pub content: MessageContentView,
}

impl DeepView for Message {
    type V = MessageView;

    open spec fn deep_view(&self) -> MessageView {
        MessageView {
            role: self.role,
            content: self.content.deep_view(),
        }
    }
}

impl Clone for Message {
    fn clone(&self) -> (r: Self)
        ensures
            r.deep_view() == self.deep_view(),
    {
        Message {
            role: self.role,
            content: self.content.clone(),
        }
    }
}

/// A tool as it is advertised to the model.
#[derive(Debug)]
pub struct ToolDefinition {
    pub name: String,
    pub description: String,
    /// The JSON text of the parameter schema.
    pub parameters: String,
    pub read_only: bool,
    pub idempotent: bool,
}

/// The model of [`ToolDefinition`].
#[verifier::ext_equal]
pub struct ToolDefinitionView {
    pub name: Seq<char>,
    pub description: Seq<char>,
    pub parameters: Seq<char>,
    pub read_only: bool,
    pub idempotent: bool,
}

impl DeepView for ToolDefinition {
    type V = ToolDefinitionView;

    open spec fn deep_view(&self) -> ToolDefinitionView {
        ToolDefinitionView {
            name: self.name.deep_view(),
            description: self.description.deep_view(),
            parameters: self.parameters.deep_view(),
            read_only: self.read_only,
            idempotent: self.idempotent,
        }
    }
}

impl Clone for ToolDefinition {
    fn clone(&self) -> (r: Self)
        ensures
            r.deep_view() == self.deep_view(),
    {
        ToolDefinition {
            name: self.name.clone(),
            description: self.description.clone(),
            parameters: self.parameters.clone(),
            read_only: self.read_only,
            idempotent: self.idempotent,
        }
    }
}

/// A tool call that the model asked for.
#[derive(Debug)]
pub struct PendingToolCall {
    pub tool_use_id: String,
    pub tool_name: String,
    pub arguments: Arguments,
}

/// The model of [`PendingToolCall`].
#[verifier::ext_equal]
pub struct PendingToolCallView {
    pub tool_use_id: Seq<char>,
    pub tool_name: Seq<char>,
    pub arguments: ArgumentsView,
}

impl DeepView for PendingToolCall {
    type V = PendingToolCallView;

    open spec fn deep_view(&self) -> PendingToolCallView {
        PendingToolCallView {
            tool_use_id: self.tool_use_id.deep_view(),
            tool_name: self.tool_name.deep_view(),
            arguments: self.arguments.deep_view(),
        }
    }
}

impl Clone for PendingToolCall {
    fn clone(&self) -> (r: Self)
        ensures
            r.deep_view() == self.deep_view(),
    {
        PendingToolCall {
            tool_use_id: self.tool_use_id.clone(),
            tool_name: self.tool_name.clone(),
            arguments: self.arguments.clone(),
        }
    }
}

/// What a call of the model cost.
#[derive(Clone, Copy, Debug, PartialEq, Eq, Structural)]
pub struct TokenUsage {
    pub input_tokens: u64,
    pub output_tokens: u64,
}

impl DeepView for TokenUsage {
    type V = TokenUsage;

    open spec fn deep_view(&self) -> TokenUsage {
        *self
    }
}

/// How much of a prompt was seen before.
#[derive(Clone, Copy, Debug, PartialEq, Eq, Structural)]
pub struct PromptCacheUsage {
    pub estimated_hit_tokens: u64,
    pub estimated_miss_tokens: u64,
}

impl DeepView for PromptCacheUsage {
    type V = PromptCacheUsage;

    open spec fn deep_view(&self) -> PromptCacheUsage {
        *self
    }
}

/// A message that is plain text.
pub open spec fn text_message(role: Role, text: Seq<char>) -> MessageView {
    MessageView { role, content: MessageContentView::Text(text) }
}

/// A message of the assistant that asks for tools.
pub open spec fn tool_use_message(
    text: Option<Seq<char>>,
    tool_calls: Seq<ToolUseRequestView>,
) -> MessageView {
    MessageView {
        role: Role::Assistant,
        content: MessageContentView::ToolUse { text, tool_calls },
    }
}

/// The message that answers a tool call.
pub open spec fn tool_result_message(
    tool_use_id: Seq<char>,
    output: Seq<char>,
    is_error: bool,
) -> MessageView {
    MessageView {
        role: Role::Tool,
        content: MessageContentView::ToolResult { tool_use_id, output, is_error },
    }
}

impl Message {
    /// A system message.
    pub fn system(text: String) -> (r: Message)
        ensures
            r.deep_view() == text_message(Role::System, text@),
    {
        Message { role: Role::System, content: MessageContent::Text(text) }
    }

    /// A user message.
    pub fn user(text: String) -> (r: Message)
        ensures
            r.deep_view() == text_message(Role::User, text@),
    {
        Message { role: Role::User, content: MessageContent::Text(text) }
    }

    /// A message of the assistant.
    pub fn assistant(text: String) -> (r: Message)
        ensures
            r.deep_view() == text_message(Role::Assistant, text@),
    {
        Message { role: Role::Assistant, content: MessageContent::Text(text) }
    }

    /// A message of the assistant that asks for tools.
    pub fn assistant_tool_use(text: Option<String>, tool_calls: Vec<ToolUseRequest>) -> (r: Message)
        ensures
            r.deep_view() == tool_use_message(text.deep_view(), tool_calls.deep_view()),
    {
        Message { role: Role::Assistant, content: MessageContent::ToolUse { text, tool_calls } }
    }

    /// The answer to a tool call.
    pub fn tool_result(tool_use_id: String, output: String, is_error: bool) -> (r: Message)
        ensures
            r.deep_view() == tool_result_message(tool_use_id@, output@, is_error),
    {
        Message {
            role: Role::Tool,
            content: MessageContent::ToolResult { tool_use_id, output, is_error },
        }
    }
}

/// The name of a role.
pub open spec fn role_text(role: Role) -> Seq<char> {
    match role {
        Role::System => "system"@,
        Role::User => "user"@,
        Role::Assistant => "assistant"@,
        Role::Tool => "tool"@,
    }
}

/// The name of a role.
pub fn role_label(role: Role) -> (r: &'static str)
    ensures
        r@ == role_text(role),
{
    match role {
        Role::System => "system",
        Role::User => "user",
        Role::Assistant => "assistant",
        Role::Tool => "tool",
    }
}

/// The position of the last user message.
pub open spec fn last_user(history: Seq<MessageView>) -> Option<int>
    decreases history.len(),
{
    if history.len() == 0 {
        None
    } else if history.last().role == Role::User {
        Some(history.len() - 1)
    } else {
        last_user(history.drop_last())
    }
}

/// The position of the last user message of a history.
pub fn latest_user_message_index(history: &Vec<Message>) -> (r: Option<usize>)
    ensures
        match r {
            Some(i) => last_user(history.deep_view()) == Some(i as int),
            None => last_user(history.deep_view()) is None,
        },
        r matches Some(i) ==> i < history@.len(),
{
    let mut i: usize = history.len();
    let ghost all = history.deep_view();
    assert(all.take(i as int) =~= all);
    while i > 0
        invariant
            i <= history@.len(),
            all == history.deep_view(),
            last_user(all) == last_user(all.take(i as int)),
        decreases i,
    {
        assert(all.take(i as int).last() == all[i - 1]);
        assert(all.take(i as int).drop_last() =~= all.take(i - 1));
        if history[i - 1].role == Role::User {
            return Some(i - 1);
        }
        i = i - 1;
    }
    assert(all.take(0) =~= Seq::empty());
    None
}

/// From the last user message on there is no other user message.
pub proof fn law_last_user(history: Seq<MessageView>)
    ensures
        match last_user(history) {
            Some(i) => {
                &&& 0 <= i < history.len()
                &&& history[i].role == Role::User
                &&& forall|j: int| i < j < history.len() ==> history[j].role != Role::User
            },
            None => forall|j: int| 0 <= j < history.len() ==> history[j].role != Role::User,
        },
    decreases history.len(),
{
    if history.len() > 0 && history.last().role != Role::User {
        law_last_user(history.drop_last());
        assert(forall|j: int|
            0 <= j < history.len() - 1 ==> history.drop_last()[j] == history[j]);
    }
}

} // verus!
