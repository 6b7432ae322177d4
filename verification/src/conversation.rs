//! The log of a conversation and the messages that it stands for.

use vstd::prelude::*;
use vstd::string::*;

use crate::arguments::{Arguments, ArgumentsView};

verus! {

broadcast use vstd::seq::group_seq_axioms;

/// A tool call of the assistant.
#[derive(Debug)]
pub struct ToolCall {
    pub id: String,
    pub name: String,
    pub arguments: Arguments,
}

/// The model of [`ToolCall`].
#[verifier::ext_equal]
pub struct ToolCallView {
    pub id: Seq<char>,
    pub name: Seq<char>,
    pub arguments: ArgumentsView,
}

impl DeepView for ToolCall {
    type V = ToolCallView;

    open spec fn deep_view(&self) -> ToolCallView {
        ToolCallView {
            id: self.id.deep_view(),
            name: self.name.deep_view(),
            arguments: self.arguments.deep_view(),
        }
    }
}

impl Clone for ToolCall {
    fn clone(&self) -> (r: Self)
        ensures
            r.deep_view() == self.deep_view(),
    {
        ToolCall {
            id: self.id.clone(),
            name: self.name.clone(),
            arguments: self.arguments.clone(),
        }
    }
}

/// What a tool gave back.
#[derive(Debug)]
pub struct ToolOutput {
    pub success: bool,
    pub output: String,
}

/// The model of [`ToolOutput`].
#[verifier::ext_equal]
pub struct ToolOutputView {
    pub success: bool,
    pub output: Seq<char>,
}

impl DeepView for ToolOutput {
    type V = ToolOutputView;

    open spec fn deep_view(&self) -> ToolOutputView {
        ToolOutputView {
            success: self.success,
            output: self.output.deep_view(),
        }
    }
}

impl Clone for ToolOutput {
    fn clone(&self) -> (r: Self)
        ensures
            r.deep_view() == self.deep_view(),
    {
        ToolOutput {
            success: self.success,
            output: self.output.clone(),
        }
    }
}

/// An entry of the log.
#[derive(Debug)]
pub enum Entry {
    UserMessage { content: String },
    AssistantMessage { content: String, tool_calls: Vec<ToolCall> },
    ToolExecution {
        tool_call_id: String,
        tool_name: String,
        arguments: Arguments,
        result: ToolOutput,
    },
}

/// The model of [`Entry`].
#[verifier::ext_equal]
pub enum EntryView {
    UserMessage { content: Seq<char> },
    AssistantMessage { content: Seq<char>, tool_calls: Seq<ToolCallView> },
    ToolExecution {
        tool_call_id: Seq<char>,
        tool_name: Seq<char>,
        arguments: ArgumentsView,
        result: ToolOutputView,
    },
}

impl DeepView for Entry {
    type V = EntryView;

    open spec fn deep_view(&self) -> EntryView {
        match *self {
            Entry::UserMessage { content } => EntryView::UserMessage {
                content: content.deep_view(),
            },
            Entry::AssistantMessage { content, tool_calls } => EntryView::AssistantMessage {
                content: content.deep_view(),
                tool_calls: tool_calls.deep_view(),
            },
            Entry::ToolExecution {
                tool_call_id,
                tool_name,
                arguments,
                result,
            } => EntryView::ToolExecution {
                tool_call_id: tool_call_id.deep_view(),
                tool_name: tool_name.deep_view(),
                arguments: arguments.deep_view(),
                result: result.deep_view(),
            },
        }
    }
}

impl Clone for Entry {
    fn clone(&self) -> (r: Self)
        ensures
            r.deep_view() == self.deep_view(),
    {
        match self {
            Entry::UserMessage { content } => {
                Entry::UserMessage { content: content.clone() }
            },
            Entry::AssistantMessage { content, tool_calls } => {
                let new_tool_calls = tool_calls.clone();
                assert(new_tool_calls.deep_view() =~= tool_calls.deep_view());
                Entry::AssistantMessage { content: content.clone(), tool_calls: new_tool_calls }
            },
            Entry::ToolExecution { tool_call_id, tool_name, arguments, result } => {
                Entry::ToolExecution {
                    tool_call_id: tool_call_id.clone(),
                    tool_name: tool_name.clone(),
                    arguments: arguments.clone(),
                    result: result.clone(),
                }
            },
        }
    }
}

/// A part of a message.
#[derive(Debug)]
pub enum ContentBlock {
    Text { text: String },
    ToolUse { id: String, name: String, input: Arguments },
    ToolResult { tool_use_id: String, content: String },
}

/// The model of [`ContentBlock`].
#[verifier::ext_equal]
pub enum ContentBlockView {
    Text { text: Seq<char> },
    ToolUse { id: Seq<char>, name: Seq<char>, input: ArgumentsView },
    ToolResult { tool_use_id: Seq<char>, content: Seq<char> },
}

impl DeepView for ContentBlock {
    type V = ContentBlockView;

    open spec fn deep_view(&self) -> ContentBlockView {
        match *self {
            ContentBlock::Text { text } => ContentBlockView::Text { text: text.deep_view() },
            ContentBlock::ToolUse { id, name, input } => ContentBlockView::ToolUse {
                id: id.deep_view(),
                name: name.deep_view(),
                input: input.deep_view(),
            },
            ContentBlock::ToolResult { tool_use_id, content } => ContentBlockView::ToolResult {
                tool_use_id: tool_use_id.deep_view(),
                content: content.deep_view(),
            },
        }
    }
}

impl Clone for ContentBlock {
    fn clone(&self) -> (r: Self)
        ensures
            r.deep_view() == self.deep_view(),
    {
        match self {
            ContentBlock::Text { text } => {
                ContentBlock::Text { text: text.clone() }
            },
            ContentBlock::ToolUse { id, name, input } => {
                ContentBlock::ToolUse { id: id.clone(), name: name.clone(), input: input.clone() }
            },
            ContentBlock::ToolResult { tool_use_id, content } => {
                ContentBlock::ToolResult {
                    tool_use_id: tool_use_id.clone(),
                    content: content.clone(),
                }
            },
        }
    }
}

/// What a message holds.
#[derive(Debug)]
pub enum ChatContent {
    Text(String),
    Blocks(Vec<ContentBlock>),
}

/// The model of [`ChatContent`].
#[verifier::ext_equal]
pub enum ChatContentView {
    Text(Seq<char>),
    Blocks(Seq<ContentBlockView>),
}

impl DeepView for ChatContent {
    type V = ChatContentView;

    open spec fn deep_view(&self) -> ChatContentView {
        match *self {
            ChatContent::Text(value) => ChatContentView::Text(value.deep_view()),
            ChatContent::Blocks(value) => ChatContentView::Blocks(value.deep_view()),
        }
    }
}

impl Clone for ChatContent {
    fn clone(&self) -> (r: Self)
        ensures
            r.deep_view() == self.deep_view(),
    {
        match self {
            ChatContent::Text(value) => ChatContent::Text(value.clone()),
            ChatContent::Blocks(value) => {
                let new_value = value.clone();
                assert(new_value.deep_view() =~= value.deep_view());
                ChatContent::Blocks(new_value)
            },
        }
    }
}

/// A message to the model.
#[derive(Debug)]
pub struct ChatMessage {
    pub role: String,
    pub content: ChatContent,
}

/// The model of [`ChatMessage`].
#[verifier::ext_equal]
pub struct ChatMessageView {
    pub role: Seq<char>,
    pub content: ChatContentView,
}

impl DeepView for ChatMessage {
    type V = ChatMessageView;

    open spec fn deep_view(&self) -> ChatMessageView {
        ChatMessageView {
            role: self.role.deep_view(),
            content: self.content.deep_view(),
        }
    }
}

impl Clone for ChatMessage {
    fn clone(&self) -> (r: Self)
        ensures
            r.deep_view() == self.deep_view(),
    {
        ChatMessage {
            role: self.role.clone(),
            content: self.content.clone(),
        }
    }
}

/// A conversation.
#[derive(Debug)]
pub struct Conversation {
    pub entries: Vec<Entry>,
}

impl Default for Conversation {
    fn default() -> (r: Conversation)
        ensures
            r.entries@.len() == 0,
    {
        Conversation::new()
    }
}

impl Conversation {
    /// An empty conversation.
    pub fn new() -> (r: Conversation)
        ensures
            r.entries@.len() == 0,
    {
        Conversation { entries: Vec::new() }
    }

    /// Appends an entry.
    pub fn push(&mut self, entry: Entry)
        ensures
            final(self).entries.deep_view() == old(self).entries.deep_view().push(
                entry.deep_view(),
            ),
    {
        let ghost before = self.entries.deep_view();
        self.entries.push(entry);
        assert(self.entries.deep_view() =~= before.push(entry.deep_view()));
    }
}

impl ChatContent {
    /// The text, if this is nothing but text; else nothing.
    pub fn as_text(&self) -> (r: &str)
        ensures
            r@ == (match self.deep_view() {
                ChatContentView::Text(text) => text,
                ChatContentView::Blocks(_) => ""@,
            }),
    {
        match self {
            ChatContent::Text(text) => text.as_str(),
            ChatContent::Blocks(_) => "",
        }
    }
}

/// The tool calls of an assistant message as parts of a message.
pub open spec fn use_blocks(calls: Seq<ToolCallView>) -> Seq<ContentBlockView> {
    calls.map_values(
        |c: ToolCallView|
            ContentBlockView::ToolUse { id: c.id, name: c.name, input: c.arguments },
    )
}

/// The message that an entry other than a tool execution stands for.
pub open spec fn entry_message(entry: EntryView) -> ChatMessageView {
    match entry {
        EntryView::AssistantMessage { content, tool_calls } => ChatMessageView {
            role: "assistant"@,
            content: if content.len() > 0 && tool_calls.len() == 0 {
                ChatContentView::Text(content)
            } else if content.len() > 0 {
                ChatContentView::Blocks(
                    seq![ContentBlockView::Text { text: content }] + use_blocks(tool_calls),
                )
            } else {
                ChatContentView::Blocks(use_blocks(tool_calls))
            },
        },
        EntryView::UserMessage { content } => ChatMessageView {
            role: "user"@,
            content: ChatContentView::Text(content),
        },
        EntryView::ToolExecution { .. } => ChatMessageView {
            role: "user"@,
            content: ChatContentView::Blocks(Seq::empty()),
        },
    }
}

/// The tool results that wait at the end of a log for the message that will hold them.
pub open spec fn waiting_results(entries: Seq<EntryView>) -> Seq<ContentBlockView>
    decreases entries.len(),
{
    if entries.len() == 0 {
        Seq::empty()
    } else {
        match entries.last() {
            EntryView::ToolExecution { tool_call_id, result, .. } => waiting_results(
                entries.drop_last(),
            ).push(
                ContentBlockView::ToolResult { tool_use_id: tool_call_id, content: result.output },
            ),
            _ => Seq::empty(),
        }
    }
}

/// The messages with one more for the tool results that wait, if there are any.
pub open spec fn flushed(
    messages: Seq<ChatMessageView>,
    results: Seq<ContentBlockView>,
) -> Seq<ChatMessageView> {
    if results.len() == 0 {
        messages
    } else {
        messages.push(
            ChatMessageView { role: "user"@, content: ChatContentView::Blocks(results) },
        )
    }
}

/// The messages of a log without the tool results that wait at its end.
pub open spec fn settled_messages(entries: Seq<EntryView>) -> Seq<ChatMessageView>
    decreases entries.len(),
{
    if entries.len() == 0 {
        Seq::empty()
    } else {
        let front = entries.drop_last();
        match entries.last() {
            EntryView::ToolExecution { .. } => settled_messages(front),
            _ => flushed(settled_messages(front), waiting_results(front)).push(
                entry_message(entries.last()),
            ),
        }
    }
}

/// The messages that a log stands for. Neighbouring tool executions are one message.
pub open spec fn log_messages(entries: Seq<EntryView>) -> Seq<ChatMessageView> {
    flushed(settled_messages(entries), waiting_results(entries))
}

/// A log that goes on with a user message keeps the messages it has: cutting it off in
/// front of a user message cuts the messages off at that user message.
pub proof fn law_messages_before_a_user_message(entries: Seq<EntryView>, at: int)
    requires
        0 <= at < entries.len(),
        entries[at] is UserMessage,
    ensures
        log_messages(entries.take(at)).is_prefix_of(log_messages(entries)),
        log_messages(entries.take(at)).len() < log_messages(entries).len(),
        log_messages(entries)[log_messages(entries.take(at)).len() as int] == entry_message(
            entries[at],
        ),
{
    lemma_settled_grow(entries, at + 1);
    let early = entries.take(at + 1);
    let kept = log_messages(entries.take(at));
    assert(early.drop_last() =~= entries.take(at));
    assert(early.last() == entries[at]);
    let mid = settled_messages(early);
    assert(mid == kept.push(entry_message(entries[at])));
    let all = log_messages(entries);
    let settled = settled_messages(entries);
    assert(mid =~= settled.subrange(0, mid.len() as int));
    assert forall|i: int| 0 <= i < mid.len() implies all[i] == mid[i] by {
        assert(settled.subrange(0, mid.len() as int)[i] == settled[i]);
    }
    assert(kept =~= all.subrange(0, kept.len() as int));
    assert(all[kept.len() as int] == mid[kept.len() as int]);
}

proof fn lemma_settled_grow(entries: Seq<EntryView>, n: int)
    requires
        0 <= n <= entries.len(),
    ensures
        settled_messages(entries.take(n)).is_prefix_of(settled_messages(entries)),
    decreases entries.len() - n,
{
    let a = settled_messages(entries.take(n));
    if n == entries.len() {
        assert(entries.take(n) =~= entries);
        assert(a =~= a.subrange(0, a.len() as int));
    } else {
        lemma_settled_grow(entries, n + 1);
        assert(entries.take(n + 1).drop_last() =~= entries.take(n));
        let b = settled_messages(entries.take(n + 1));
        let c = settled_messages(entries);
        assert(a =~= b.subrange(0, a.len() as int));
        assert forall|i: int| 0 <= i < a.len() implies a[i] == c[i] by {
            assert(b.subrange(0, a.len() as int)[i] == b[i]);
            assert(c.subrange(0, b.len() as int)[i] == c[i]);
        }
        assert(a =~= c.subrange(0, a.len() as int));
    }
}

/// The tool calls of an assistant message as parts of a message, behind the text.
fn assistant_blocks(content: &String, calls: &Vec<ToolCall>) -> (r: Vec<ContentBlock>)
    ensures
        r.deep_view() == (if content@.len() > 0 {
            seq![ContentBlockView::Text { text: content@ }] + use_blocks(calls.deep_view())
        } else {
            use_blocks(calls.deep_view())
        }),
{
    let mut r: Vec<ContentBlock> = Vec::new();
    if !content.as_str().is_empty() {
        r.push(ContentBlock::Text { text: content.clone() });
    }
    let ghost head = r.deep_view();
    let ghost wanted = use_blocks(calls.deep_view());
    let mut i: usize = 0;
    assert(r.deep_view() =~= head + wanted.take(0));
    while i < calls.len()
        invariant
            i <= calls@.len(),
            wanted == use_blocks(calls.deep_view()),
            r.deep_view() == head + wanted.take(i as int),
        decreases calls@.len() - i,
    {
        let ghost before = r.deep_view();
        r.push(
            ContentBlock::ToolUse {
                id: calls[i].id.clone(),
                name: calls[i].name.clone(),
                input: calls[i].arguments.clone(),
            },
        );
        assert(r.deep_view() =~= before.push(wanted[i as int]));
        assert(r.deep_view() =~= head + wanted.take(i + 1));
        i = i + 1;
    }
    assert(wanted.take(i as int) =~= wanted);
    assert(head + wanted =~= (if content@.len() > 0 {
        seq![ContentBlockView::Text { text: content@ }] + wanted
    } else {
        wanted
    }));
    r
}

/// The messages that a log stands for.
pub fn entries_to_messages(entries: &[Entry]) -> (r: Vec<ChatMessage>)
    ensures
        r.deep_view() == log_messages(entries.deep_view()),
{
    let mut messages: Vec<ChatMessage> = Vec::new();
    let mut pending: Vec<ContentBlock> = Vec::new();
    let ghost all = entries.deep_view();
    let mut i: usize = 0;
    assert(messages.deep_view() =~= settled_messages(all.take(0)));
    assert(pending.deep_view() =~= waiting_results(all.take(0)));
    while i < entries.len()
        invariant
            i <= entries@.len(),
            all == entries.deep_view(),
            messages.deep_view() == settled_messages(all.take(i as int)),
            pending.deep_view() == waiting_results(all.take(i as int)),
        decreases entries@.len() - i,
    {
        assert(all.take(i + 1).drop_last() =~= all.take(i as int));
        assert(all.take(i + 1).last() == entries@[i as int].deep_view());
        let ghost before = messages.deep_view();
        let ghost waiting = pending.deep_view();
        match &entries[i] {
            Entry::ToolExecution { tool_call_id, result, .. } => {
                pending.push(
                    ContentBlock::ToolResult {
                        tool_use_id: tool_call_id.clone(),
                        content: result.output.clone(),
                    },
                );
                assert(pending.deep_view() =~= waiting.push(
                    ContentBlockView::ToolResult {
                        tool_use_id: tool_call_id@,
                        content: result.output@,
                    },
                ));
            },
            Entry::UserMessage { content } => {
                if pending.len() > 0 {
                    messages.push(
                        ChatMessage { role: "user".to_owned(), content: ChatContent::Blocks(pending) },
                    );
                    pending = Vec::new();
                }
                assert(messages.deep_view() =~= flushed(before, waiting));
                let ghost full = messages.deep_view();
                messages.push(
                    ChatMessage {
                        role: "user".to_owned(),
                        content: ChatContent::Text(content.clone()),
                    },
                );
                assert(messages.deep_view() =~= full.push(entry_message(all[i as int])));
                assert(pending.deep_view() =~= Seq::empty());
            },
            Entry::AssistantMessage { content, tool_calls } => {
                if pending.len() > 0 {
                    messages.push(
                        ChatMessage { role: "user".to_owned(), content: ChatContent::Blocks(pending) },
                    );
                    pending = Vec::new();
                }
                assert(messages.deep_view() =~= flushed(before, waiting));
                let ghost full = messages.deep_view();
                let message = if !content.as_str().is_empty() && tool_calls.len() == 0 {
                    ChatMessage {
                        role: "assistant".to_owned(),
                        content: ChatContent::Text(content.clone()),
                    }
                } else {
                    ChatMessage {
                        role: "assistant".to_owned(),
                        content: ChatContent::Blocks(assistant_blocks(content, tool_calls)),
                    }
                };
                assert(message.deep_view() == entry_message(all[i as int]));
                messages.push(message);
                assert(messages.deep_view() =~= full.push(entry_message(all[i as int])));
                assert(pending.deep_view() =~= Seq::empty());
            },
        }
        i = i + 1;
    }
    assert(all.take(i as int) =~= all);
    let ghost before = messages.deep_view();
    let ghost waiting = pending.deep_view();
    if pending.len() > 0 {
        messages.push(ChatMessage { role: "user".to_owned(), content: ChatContent::Blocks(pending) });
    }
    assert(messages.deep_view() =~= flushed(before, waiting));
    messages
}

} // verus!
