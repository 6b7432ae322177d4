//! What becomes of a history when its session is restored.

use vstd::prelude::*;
use vstd::string::*;

use crate::message::{
    Message, MessageContent, MessageContentView, MessageView, ToolUseRequest, ToolUseRequestView,
};
use crate::text;

verus! {

broadcast use vstd::seq::group_seq_axioms;

/// Whether a call is among calls.
pub open spec fn calls_id(calls: Seq<ToolUseRequestView>, id: Seq<char>) -> bool {
    exists|k: int| 0 <= k < calls.len() && (#[trigger] calls[k]).tool_use_id == id
}

/// Whether a message makes a call.
pub open spec fn makes_call(message: MessageView, id: Seq<char>) -> bool {
    match message.content {
        MessageContentView::ToolUse { tool_calls, .. } => calls_id(tool_calls, id),
        _ => false,
    }
}

/// Whether a message holds the result of a call.
pub open spec fn answers_call(message: MessageView, id: Seq<char>) -> bool {
    match message.content {
        MessageContentView::ToolResult { tool_use_id, .. } => tool_use_id == id,
        _ => false,
    }
}

/// Whether a call is made and answered later.
pub open spec fn paired(history: Seq<MessageView>, id: Seq<char>) -> bool {
    exists|made: int, answered: int|
        0 <= made < answered < history.len() && makes_call(#[trigger] history[made], id)
            && answers_call(#[trigger] history[answered], id)
}

/// The calls that are answered.
pub open spec fn answered_calls(
    history: Seq<MessageView>,
    calls: Seq<ToolUseRequestView>,
) -> Seq<ToolUseRequestView>
    decreases calls.len(),
{
    if calls.len() == 0 {
        Seq::empty()
    } else {
        let front = answered_calls(history, calls.drop_last());
        if paired(history, calls.last().tool_use_id) {
            front.push(calls.last())
        } else {
            front
        }
    }
}

/// What is left of a message. Of tool calls those that are answered are left, and where
/// none is, the text, if there is any. Of results those that answer a call are left.
pub open spec fn left_of(history: Seq<MessageView>, message: MessageView) -> Option<MessageView> {
    match message.content {
        MessageContentView::Text(_) => Some(message),
        MessageContentView::ToolUse { text, tool_calls } => {
            let calls = answered_calls(history, tool_calls);
            if calls.len() > 0 {
                Some(
                    MessageView {
                        role: message.role,
                        content: MessageContentView::ToolUse { text, tool_calls: calls },
                    },
                )
            } else {
                match text {
                    Some(content) => if text::trimmed(content).len() > 0 {
                        Some(
                            MessageView {
                                role: message.role,
                                content: MessageContentView::Text(content),
                            },
                        )
                    } else {
                        None
                    },
                    None => None,
                }
            }
        },
        MessageContentView::ToolResult { tool_use_id, .. } => if paired(history, tool_use_id) {
            Some(message)
        } else {
            None
        },
    }
}

/// What is left of messages of a history.
pub open spec fn left_of_all(history: Seq<MessageView>, messages: Seq<MessageView>) -> Seq<
    MessageView,
>
    decreases messages.len(),
{
    if messages.len() == 0 {
        Seq::empty()
    } else {
        let front = left_of_all(history, messages.drop_last());
        match left_of(history, messages.last()) {
            Some(message) => front.push(message),
            None => front,
        }
    }
}

/// A history without calls that were never answered and results of calls that were never
/// made.
pub open spec fn sanitized(history: Seq<MessageView>) -> Seq<MessageView> {
    left_of_all(history, history)
}

proof fn lemma_answered_calls(history: Seq<MessageView>, calls: Seq<ToolUseRequestView>)
    ensures
        forall|id: Seq<char>| #[trigger]
            calls_id(answered_calls(history, calls), id) <==> calls_id(calls, id) && paired(
                history,
                id,
            ),
    decreases calls.len(),
{
    let left = answered_calls(history, calls);
    if calls.len() > 0 {
        let front = calls.drop_last();
        let front_left = answered_calls(history, front);
        lemma_answered_calls(history, front);
        assert forall|id: Seq<char>| #[trigger] calls_id(left, id) <==> calls_id(calls, id)
            && paired(history, id) by {
            if calls_id(left, id) {
                let k = choose|k: int| 0 <= k < left.len() && (#[trigger] left[k]).tool_use_id == id;
                if k < front_left.len() {
                    assert(front_left[k].tool_use_id == id);
                    assert(calls_id(front_left, id));
                    let j = choose|j: int|
                        0 <= j < front.len() && (#[trigger] front[j]).tool_use_id == id;
                    assert(calls[j].tool_use_id == id);
                } else {
                    assert(calls[calls.len() - 1].tool_use_id == id);
                }
            }
            if calls_id(calls, id) && paired(history, id) {
                let j = choose|j: int|
                    0 <= j < calls.len() && (#[trigger] calls[j]).tool_use_id == id;
                if j < front.len() {
                    assert(front[j].tool_use_id == id);
                    assert(calls_id(front, id));
                    assert(calls_id(front_left, id));
                    let k = choose|k: int|
                        0 <= k < front_left.len() && (#[trigger] front_left[k]).tool_use_id == id;
                    assert(left[k].tool_use_id == id);
                } else {
                    assert(left[left.len() - 1].tool_use_id == id);
                }
            }
        }
    } else {
        assert forall|id: Seq<char>| !calls_id(calls, id) by {}
    }
}

/// What is left of a message stands where what is left of those before it ends.
proof fn lemma_place(history: Seq<MessageView>, messages: Seq<MessageView>, i: int)
    requires
        0 <= i < messages.len(),
    ensures
        left_of_all(history, messages.take(i)).len() <= left_of_all(history, messages).len(),
        left_of(history, messages[i]) matches Some(message) ==> {
            let place = left_of_all(history, messages.take(i)).len() as int;
            &&& place < left_of_all(history, messages).len()
            &&& left_of_all(history, messages)[place] == message
            &&& left_of_all(history, messages.take(i + 1)).len() == place + 1
        },
    decreases messages.len(),
{
    let front = messages.drop_last();
    assert(messages.take(i + 1).drop_last() =~= messages.take(i));
    assert(messages.take(i + 1).last() == messages[i]);
    if i == messages.len() - 1 {
        assert(messages.take(i) =~= front);
        assert(messages.take(i + 1) =~= messages);
    } else {
        lemma_place(history, front, i);
        assert(messages.take(i) =~= front.take(i));
        assert(messages.take(i + 1) =~= front.take(i + 1));
        assert(front[i] == messages[i]);
    }
}

proof fn lemma_places_grow(history: Seq<MessageView>, messages: Seq<MessageView>, i: int, j: int)
    requires
        0 <= i <= j <= messages.len(),
    ensures
        left_of_all(history, messages.take(i)).len() <= left_of_all(
            history,
            messages.take(j),
        ).len(),
    decreases j - i,
{
    if i < j {
        lemma_places_grow(history, messages, i, j - 1);
        assert(messages.take(j).drop_last() =~= messages.take(j - 1));
    }
}

/// Every message that is left comes from a message of the history.
proof fn lemma_source(history: Seq<MessageView>, messages: Seq<MessageView>, place: int)
    requires
        0 <= place < left_of_all(history, messages).len(),
    ensures
        exists|i: int|
            0 <= i < messages.len() && left_of(history, #[trigger] messages[i]) == Some(
                left_of_all(history, messages)[place],
            ),
    decreases messages.len(),
{
    let front = messages.drop_last();
    if place < left_of_all(history, front).len() {
        lemma_source(history, front, place);
        let i = choose|i: int|
            0 <= i < front.len() && left_of(history, #[trigger] front[i]) == Some(
                left_of_all(history, front)[place],
            );
        assert(messages[i] == front[i]);
    } else {
        assert(left_of(history, messages[messages.len() - 1]) == Some(
            left_of_all(history, messages)[place],
        ));
    }
}

/// A call that is made and answered is so in what is left.
proof fn lemma_pairs_are_left(history: Seq<MessageView>, id: Seq<char>)
    requires
        paired(history, id),
    ensures
        paired(sanitized(history), id),
{
    let (made, answered) = choose|made: int, answered: int|
        0 <= made < answered < history.len() && makes_call(#[trigger] history[made], id)
            && answers_call(#[trigger] history[answered], id);
    lemma_place(history, history, made);
    lemma_place(history, history, answered);
    lemma_places_grow(history, history, made + 1, answered);
    match history[made].content {
        MessageContentView::ToolUse { text, tool_calls } => {
            lemma_answered_calls(history, tool_calls);
            let calls = answered_calls(history, tool_calls);
            assert(calls_id(calls, id));
            let k = choose|k: int| 0 <= k < calls.len() && (#[trigger] calls[k]).tool_use_id == id;
            assert(calls.len() > 0);
        },
        _ => {},
    }
    let a = left_of_all(history, history.take(made)).len() as int;
    let b = left_of_all(history, history.take(answered)).len() as int;
    let left = sanitized(history);
    assert(makes_call(left[a], id));
    assert(answers_call(left[b], id));
    assert(a < b);
}

/// In a restored history every call is answered later, and every result answers a call
/// that was made earlier.
pub proof fn law_restored_calls_are_paired(history: Seq<MessageView>, place: int, id: Seq<char>)
    requires
        0 <= place < sanitized(history).len(),
        makes_call(sanitized(history)[place], id) || answers_call(sanitized(history)[place], id),
    ensures
        paired(sanitized(history), id),
{
    lemma_source(history, history, place);
    let i = choose|i: int|
        0 <= i < history.len() && left_of(history, #[trigger] history[i]) == Some(
            sanitized(history)[place],
        );
    match history[i].content {
        MessageContentView::ToolUse { text, tool_calls } => {
            lemma_answered_calls(history, tool_calls);
        },
        _ => {},
    }
    lemma_pairs_are_left(history, id);
}

/// Whether a call is made in a history.
pub open spec fn called(history: Seq<MessageView>, id: Seq<char>) -> bool {
    exists|i: int| 0 <= i < history.len() && makes_call(#[trigger] history[i], id)
}

/// Whether the result of a call is in a history.
pub open spec fn answered(history: Seq<MessageView>, id: Seq<char>) -> bool {
    exists|i: int| 0 <= i < history.len() && answers_call(#[trigger] history[i], id)
}

/// The calls of a restored history are those that were made and answered later, and so are
/// those whose results it holds.
pub proof fn law_restored_ids(history: Seq<MessageView>, id: Seq<char>)
    ensures
        called(sanitized(history), id) <==> paired(history, id),
        answered(sanitized(history), id) <==> paired(history, id),
{
    let left = sanitized(history);
    if paired(history, id) {
        lemma_pairs_are_left(history, id);
        let (made, answered) = choose|made: int, answered: int|
            0 <= made < answered < left.len() && makes_call(#[trigger] left[made], id)
                && answers_call(#[trigger] left[answered], id);
        assert(makes_call(left[made], id) && answers_call(left[answered], id));
    }
    if called(left, id) || answered(left, id) {
        let place = choose|i: int|
            0 <= i < left.len() && (makes_call(#[trigger] left[i], id) || answers_call(
                left[i],
                id,
            ));
        lemma_source(history, history, place);
        let i = choose|i: int|
            0 <= i < history.len() && left_of(history, #[trigger] history[i]) == Some(left[place]);
        match history[i].content {
            MessageContentView::ToolUse { text, tool_calls } => {
                lemma_answered_calls(history, tool_calls);
            },
            _ => {},
        }
    }
}

/// Where what is left of a message stands.
pub open spec fn place_of(history: Seq<MessageView>, i: int) -> int {
    left_of_all(history, history.take(i)).len() as int
}

/// Every text message of a history is in the restored one, unchanged. What is left of the
/// messages stands in the order of the messages.
pub proof fn law_restored_texts_are_kept(history: Seq<MessageView>, i: int, j: int)
    requires
        0 <= i < j <= history.len(),
    ensures
        history[i].content is Text ==> left_of(history, history[i]) == Some(history[i]),
        left_of(history, history[i]) matches Some(message) ==> {
            &&& 0 <= place_of(history, i) < sanitized(history).len()
            &&& sanitized(history)[place_of(history, i)] == message
            &&& place_of(history, i) < place_of(history, j)
        },
{
    lemma_place(history, history, i);
    lemma_places_grow(history, history, i + 1, j);
}

proof fn lemma_all_calls_answered(history: Seq<MessageView>, calls: Seq<ToolUseRequestView>)
    requires
        forall|k: int| 0 <= k < calls.len() ==> paired(history, (#[trigger] calls[k]).tool_use_id),
    ensures
        answered_calls(history, calls) == calls,
    decreases calls.len(),
{
    if calls.len() > 0 {
        let front = calls.drop_last();
        assert forall|k: int| 0 <= k < front.len() implies paired(
            history,
            (#[trigger] front[k]).tool_use_id,
        ) by {
            assert(front[k] == calls[k]);
        }
        lemma_all_calls_answered(history, front);
        assert(calls[calls.len() - 1] == calls.last());
        assert(front.push(calls.last()) =~= calls);
    } else {
        assert(answered_calls(history, calls) =~= calls);
    }
}

proof fn lemma_nothing_to_drop(history: Seq<MessageView>, messages: Seq<MessageView>)
    requires
        forall|i: int|
            0 <= i < messages.len() ==> left_of(history, #[trigger] messages[i]) == Some(
                messages[i],
            ),
    ensures
        left_of_all(history, messages) == messages,
    decreases messages.len(),
{
    if messages.len() > 0 {
        let front = messages.drop_last();
        assert forall|i: int| 0 <= i < front.len() implies left_of(history, #[trigger] front[i])
            == Some(front[i]) by {
            assert(front[i] == messages[i]);
        }
        lemma_nothing_to_drop(history, front);
        assert(messages[messages.len() - 1] == messages.last());
        assert(front.push(messages.last()) =~= messages);
    } else {
        assert(left_of_all(history, messages) =~= messages);
    }
}

/// Restoring a history that was restored before changes nothing.
pub proof fn law_restored_history_stays(history: Seq<MessageView>)
    ensures
        sanitized(sanitized(history)) == sanitized(history),
{
    let left = sanitized(history);
    assert forall|place: int| 0 <= place < left.len() implies left_of(left, #[trigger] left[place])
        == Some(left[place]) by {
        let message = left[place];
        lemma_source(history, history, place);
        let i = choose|i: int|
            0 <= i < history.len() && left_of(history, #[trigger] history[i]) == Some(message);
        match message.content {
            MessageContentView::Text(_) => {},
            MessageContentView::ToolUse { text, tool_calls } => {
                assert forall|k: int| 0 <= k < tool_calls.len() implies paired(
                    left,
                    (#[trigger] tool_calls[k]).tool_use_id,
                ) by {
                    let id = tool_calls[k].tool_use_id;
                    assert(calls_id(tool_calls, id));
                    assert(makes_call(left[place], id));
                    law_restored_calls_are_paired(history, place, id);
                }
                lemma_all_calls_answered(left, tool_calls);
                assert(tool_calls.len() > 0);
            },
            MessageContentView::ToolResult { tool_use_id, .. } => {
                assert(answers_call(left[place], tool_use_id));
                law_restored_calls_are_paired(history, place, tool_use_id);
            },
        }
    }
    lemma_nothing_to_drop(left, left);
}

/// Whether a call is among calls.
fn has_call(calls: &Vec<ToolUseRequest>, id: &str) -> (r: bool)
    ensures
        r == calls_id(calls.deep_view(), id@),
{
    let ghost all = calls.deep_view();
    let mut i: usize = 0;
    while i < calls.len()
        invariant
            i <= calls@.len(),
            all == calls.deep_view(),
            forall|k: int| 0 <= k < i ==> (#[trigger] all[k]).tool_use_id != id@,
        decreases calls@.len() - i,
    {
        if text::same(calls[i].tool_use_id.as_str(), id) {
            assert(all[i as int].tool_use_id == id@);
            return true;
        }
        i = i + 1;
    }
    false
}

/// Whether a call is made and answered later.
fn is_paired(history: &Vec<Message>, id: &str) -> (r: bool)
    ensures
        r == paired(history.deep_view(), id@),
{
    let ghost all = history.deep_view();
    let mut made: bool = false;
    let mut i: usize = 0;
    while i < history.len()
        invariant
            i <= history@.len(),
            all == history.deep_view(),
            made == exists|u: int| 0 <= u < i && makes_call(#[trigger] all[u], id@),
            forall|u: int, v: int|
                0 <= u < v < i ==> !(makes_call(#[trigger] all[u], id@) && answers_call(
                    #[trigger] all[v],
                    id@,
                )),
        decreases history@.len() - i,
    {
        assert(all[i as int] == history@[i as int].deep_view());
        match &history[i].content {
            MessageContent::ToolUse { tool_calls, .. } => {
                if has_call(tool_calls, id) {
                    assert(makes_call(all[i as int], id@));
                    made = true;
                }
            },
            MessageContent::ToolResult { tool_use_id, .. } => {
                if made && text::same(tool_use_id.as_str(), id) {
                    assert(answers_call(all[i as int], id@));
                    return true;
                }
            },
            MessageContent::Text(_) => {},
        }
        i = i + 1;
    }
    false
}

/// The calls that are answered.
fn keep_answered_calls(history: &Vec<Message>, calls: &Vec<ToolUseRequest>) -> (r: Vec<
    ToolUseRequest,
>)
    ensures
        r.deep_view() == answered_calls(history.deep_view(), calls.deep_view()),
{
    let ghost all = calls.deep_view();
    let mut r: Vec<ToolUseRequest> = Vec::new();
    let mut i: usize = 0;
    assert(r.deep_view() =~= answered_calls(history.deep_view(), all.take(0)));
    while i < calls.len()
        invariant
            i <= calls@.len(),
            all == calls.deep_view(),
            r.deep_view() == answered_calls(history.deep_view(), all.take(i as int)),
        decreases calls@.len() - i,
    {
        assert(all.take(i + 1).drop_last() =~= all.take(i as int));
        assert(all.take(i + 1).last() == calls@[i as int].deep_view());
        if is_paired(history, calls[i].tool_use_id.as_str()) {
            let ghost before = r.deep_view();
            r.push(calls[i].clone());
            assert(r.deep_view() =~= before.push(all[i as int]));
        }
        i = i + 1;
    }
    assert(all.take(i as int) =~= all);
    r
}

/// What is left of a message.
fn keep_of(history: &Vec<Message>, message: &Message) -> (r: Option<Message>)
    ensures
        r.deep_view() == left_of(history.deep_view(), message.deep_view()),
{
    match &message.content {
        MessageContent::Text(_) => Some(message.clone()),
        MessageContent::ToolUse { text, tool_calls } => {
            let calls = keep_answered_calls(history, tool_calls);
            if calls.len() > 0 {
                let kept = text.clone();
                assert(kept.deep_view() =~= text.deep_view());
                Some(
                    Message {
                        role: message.role,
                        content: MessageContent::ToolUse { text: kept, tool_calls: calls },
                    },
                )
            } else {
                match text {
                    Some(content) => {
                        if text::trim(content.as_str()).as_str().is_empty() {
                            None
                        } else {
                            Some(
                                Message {
                                    role: message.role,
                                    content: MessageContent::Text(content.clone()),
                                },
                            )
                        }
                    },
                    None => None,
                }
            }
        },
        MessageContent::ToolResult { tool_use_id, .. } => {
            if is_paired(history, tool_use_id.as_str()) {
                Some(message.clone())
            } else {
                None
            }
        },
    }
}

/// A history without calls that were never answered and results of calls that were never
/// made.
pub fn sanitize_restored_history(history: &Vec<Message>) -> (r: Vec<Message>)
    ensures
        r.deep_view() == sanitized(history.deep_view()),
{
    let ghost all = history.deep_view();
    let mut r: Vec<Message> = Vec::new();
    let mut i: usize = 0;
    assert(r.deep_view() =~= left_of_all(all, all.take(0)));
    while i < history.len()
        invariant
            i <= history@.len(),
            all == history.deep_view(),
            r.deep_view() == left_of_all(all, all.take(i as int)),
        decreases history@.len() - i,
    {
        assert(all.take(i + 1).drop_last() =~= all.take(i as int));
        assert(all.take(i + 1).last() == history@[i as int].deep_view());
        if let Some(message) = keep_of(history, &history[i]) {
            let ghost before = r.deep_view();
            r.push(message);
            assert(r.deep_view() =~= before.push(message.deep_view()));
        }
        i = i + 1;
    }
    assert(all.take(i as int) =~= all);
    r
}

} // verus!
