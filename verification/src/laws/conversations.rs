//! What the messages of a log are for: the model is sent everything that was logged, in order.

use vstd::prelude::*;

use crate::conversation::{
    log_messages, settled_messages, waiting_results, ChatContentView, ChatMessageView,
    ContentBlockView, EntryView, ToolCallView,
};

verus! {

broadcast use vstd::seq::group_seq_axioms;

/// What a message holds, piece by piece, with who said it.
pub open spec fn pieces(message: ChatMessageView) -> Seq<(Seq<char>, ContentBlockView)> {
    match message.content {
        ChatContentView::Text(text) => seq![(message.role, ContentBlockView::Text { text })],
        ChatContentView::Blocks(blocks) => blocks.map_values(
            |b: ContentBlockView| (message.role, b),
        ),
    }
}

/// What messages hold, piece by piece.
pub open spec fn all_pieces(messages: Seq<ChatMessageView>) -> Seq<(Seq<char>, ContentBlockView)>
    decreases messages.len(),
{
    if messages.len() == 0 {
        Seq::empty()
    } else {
        all_pieces(messages.drop_last()) + pieces(messages.last())
    }
}

/// The pieces of calls.
pub open spec fn call_pieces(calls: Seq<ToolCallView>) -> Seq<(Seq<char>, ContentBlockView)> {
    Seq::new(
        calls.len(),
        |i: int|
            (
                "assistant"@,
                ContentBlockView::ToolUse {
                    id: calls[i].id,
                    name: calls[i].name,
                    input: calls[i].arguments,
                },
            ),
    )
}

/// What an entry of a log says, piece by piece.
pub open spec fn entry_pieces(entry: EntryView) -> Seq<(Seq<char>, ContentBlockView)> {
    match entry {
        EntryView::UserMessage { content } => seq![
            ("user"@, ContentBlockView::Text { text: content }),
        ],
        EntryView::AssistantMessage { content, tool_calls } => (if content.len() > 0 {
            seq![("assistant"@, ContentBlockView::Text { text: content })]
        } else {
            Seq::empty()
        }) + call_pieces(tool_calls),
        EntryView::ToolExecution { tool_call_id, result, .. } => seq![
            (
                "user"@,
                ContentBlockView::ToolResult { tool_use_id: tool_call_id, content: result.output },
            ),
        ],
    }
}

/// What a log says, piece by piece.
pub open spec fn log_pieces(entries: Seq<EntryView>) -> Seq<(Seq<char>, ContentBlockView)>
    decreases entries.len(),
{
    if entries.len() == 0 {
        Seq::empty()
    } else {
        log_pieces(entries.drop_last()) + entry_pieces(entries.last())
    }
}

proof fn lemma_pieces_push(messages: Seq<ChatMessageView>, message: ChatMessageView)
    ensures
        all_pieces(messages.push(message)) == all_pieces(messages) + pieces(message),
{
    assert(messages.push(message).drop_last() =~= messages);
}

proof fn lemma_settled_pieces(entries: Seq<EntryView>)
    ensures
        all_pieces(settled_messages(entries)) + waiting_results(entries).map_values(
            |b: ContentBlockView| ("user"@, b),
        ) == log_pieces(entries),
    decreases entries.len(),
{
    let waiting = waiting_results(entries).map_values(|b: ContentBlockView| ("user"@, b));
    if entries.len() == 0 {
        assert(all_pieces(settled_messages(entries)) + waiting =~= log_pieces(entries));
    } else {
        let front = entries.drop_last();
        lemma_settled_pieces(front);
        let before = waiting_results(front).map_values(|b: ContentBlockView| ("user"@, b));
        match entries.last() {
            EntryView::ToolExecution { tool_call_id, result, .. } => {
                assert(waiting =~= before + entry_pieces(entries.last()));
                assert(all_pieces(settled_messages(front)) + waiting =~= all_pieces(
                    settled_messages(front),
                ) + before + entry_pieces(entries.last()));
            },
            _ => {
                let settled = settled_messages(front);
                let results = waiting_results(front);
                let message = crate::conversation::entry_message(entries.last());
                let all = crate::conversation::flushed(settled, results);
                if results.len() > 0 {
                    let held = ChatMessageView {
                        role: "user"@,
                        content: ChatContentView::Blocks(results),
                    };
                    lemma_pieces_push(settled, held);
                    assert(pieces(held) =~= before);
                } else {
                    assert(all_pieces(settled) + before =~= all_pieces(settled));
                }
                assert(all_pieces(all) == log_pieces(front));
                lemma_pieces_push(all, message);
                assert(pieces(message) =~= entry_pieces(entries.last()));
                assert(all_pieces(settled_messages(entries)) + waiting =~= log_pieces(entries));
            },
        }
    }
}

/// The messages of a log hold what was logged, all of it and nothing else, in order: what the
/// user said, what the assistant said and called, and what the tools gave.
pub proof fn law_messages_hold_the_log(entries: Seq<EntryView>)
    ensures
        all_pieces(log_messages(entries)) == log_pieces(entries),
{
    lemma_settled_pieces(entries);
    let settled = settled_messages(entries);
    let results = waiting_results(entries);
    let waiting = results.map_values(|b: ContentBlockView| ("user"@, b));
    if results.len() > 0 {
        let held = ChatMessageView { role: "user"@, content: ChatContentView::Blocks(results) };
        lemma_pieces_push(settled, held);
        assert(pieces(held) =~= waiting);
    } else {
        assert(all_pieces(settled) + waiting =~= all_pieces(settled));
    }
}

} // verus!
