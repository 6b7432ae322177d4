//! What restoring is for: nothing is lost but what was cut off in the middle.

use vstd::prelude::*;

use crate::message::{MessageContentView, MessageView, ToolUseRequestView};
use crate::restore::{answered_calls, left_of, left_of_all, paired, place_of, sanitized};
use crate::text;

verus! {

broadcast use vstd::seq::group_seq_axioms;

/// Whether nothing in a history was cut off in the middle: every call is answered later, and
/// every result answers a call that was made before.
pub open spec fn complete(history: Seq<MessageView>) -> bool {
    forall|i: int|
        0 <= i < history.len() ==> match (#[trigger] history[i]).content {
            MessageContentView::Text(_) => true,
            MessageContentView::ToolUse { tool_calls, .. } => {
                &&& tool_calls.len() > 0
                &&& forall|k: int|
                    0 <= k < tool_calls.len() ==> answered_after(
                        history,
                        (#[trigger] tool_calls[k]).tool_use_id,
                        i,
                    )
            },
            MessageContentView::ToolResult { tool_use_id, .. } => called_before(
                history,
                tool_use_id,
                i,
            ),
        }
}

/// Whether the result of a call stands behind a position.
pub open spec fn answered_after(history: Seq<MessageView>, id: Seq<char>, i: int) -> bool {
    exists|j: int|
        i < j < history.len() && ((#[trigger] history[j]).content matches
            MessageContentView::ToolResult { tool_use_id, .. } && tool_use_id == id)
}

/// Whether a call is made in front of a position.
pub open spec fn called_before(history: Seq<MessageView>, id: Seq<char>, i: int) -> bool {
    exists|j: int|
        0 <= j < i && ((#[trigger] history[j]).content matches MessageContentView::ToolUse {
            tool_calls,
            ..
        } && (exists|k: int|
            0 <= k < tool_calls.len() && (#[trigger] tool_calls[k]).tool_use_id == id))
}

proof fn lemma_answered_is_paired(
    history: Seq<MessageView>,
    i: int,
    calls: Seq<ToolUseRequestView>,
    text: Option<Seq<char>>,
    k: int,
)
    requires
        0 <= i < history.len(),
        history[i].content == (MessageContentView::ToolUse { text, tool_calls: calls }),
        0 <= k < calls.len(),
        answered_after(history, calls[k].tool_use_id, i),
    ensures
        paired(history, calls[k].tool_use_id),
{
    let id = calls[k].tool_use_id;
    let j = choose|j: int|
        i < j < history.len() && ((#[trigger] history[j]).content matches
            MessageContentView::ToolResult { tool_use_id, .. } && tool_use_id == id);
    assert(crate::restore::calls_id(calls, id));
    assert(crate::restore::makes_call(history[i], id));
    assert(crate::restore::answers_call(history[j], id));
}

/// A history in which nothing was cut off comes back as it was, message for message.
pub proof fn law_complete_history_comes_back(history: Seq<MessageView>)
    requires
        complete(history),
    ensures
        sanitized(history) == history,
{
    assert forall|i: int| 0 <= i < history.len() implies left_of(history, #[trigger] history[i])
        == Some(history[i]) by {
        match history[i].content {
            MessageContentView::Text(_) => {},
            MessageContentView::ToolUse { text, tool_calls } => {
                assert forall|k: int| 0 <= k < tool_calls.len() implies paired(
                    history,
                    (#[trigger] tool_calls[k]).tool_use_id,
                ) by {
                    lemma_answered_is_paired(history, i, tool_calls, text, k);
                }
                lemma_all_kept(history, tool_calls);
            },
            MessageContentView::ToolResult { tool_use_id, .. } => {
                let j = choose|j: int|
                    0 <= j < i && ((#[trigger] history[j]).content matches
                        MessageContentView::ToolUse { tool_calls, .. } && (exists|k: int|
                        0 <= k < tool_calls.len() && (#[trigger] tool_calls[k]).tool_use_id
                            == tool_use_id));
                assert(crate::restore::makes_call(history[j], tool_use_id));
                assert(crate::restore::answers_call(history[i], tool_use_id));
            },
        }
    }
    lemma_all_left(history, history);
}

proof fn lemma_all_kept(history: Seq<MessageView>, calls: Seq<ToolUseRequestView>)
    requires
        forall|k: int| 0 <= k < calls.len() ==> paired(history, (#[trigger] calls[k]).tool_use_id),
    ensures
        answered_calls(history, calls) == calls,
    decreases calls.len(),
{
    if calls.len() > 0 {
        let front = calls.drop_last();
        assert forall|k: int| 0 <= k < front.len() implies paired(
            history,
            (#[trigger] front[k]).tool_use_id,
        ) by {
            assert(front[k] == calls[k]);
        }
        lemma_all_kept(history, front);
        assert(calls[calls.len() - 1] == calls.last());
        assert(front.push(calls.last()) =~= calls);
    } else {
        assert(answered_calls(history, calls) =~= calls);
    }
}

proof fn lemma_all_left(history: Seq<MessageView>, messages: Seq<MessageView>)
    requires
        forall|i: int|
            0 <= i < messages.len() ==> left_of(history, #[trigger] messages[i]) == Some(
                messages[i],
            ),
    ensures
        left_of_all(history, messages) == messages,
    decreases messages.len(),
{
    if messages.len() > 0 {
        let front = messages.drop_last();
        assert forall|i: int| 0 <= i < front.len() implies left_of(history, #[trigger] front[i])
            == Some(front[i]) by {
            assert(front[i] == messages[i]);
        }
        lemma_all_left(history, front);
        assert(messages[messages.len() - 1] == messages.last());
        assert(front.push(messages.last()) =~= messages);
    } else {
        assert(left_of_all(history, messages) =~= messages);
    }
}

/// What stays of a message that calls tools: its role and its text stay, and of its calls those
/// that are answered, unchanged and in order. Where none is answered the text stays, unless it
/// is blank.
pub proof fn law_what_stays_of_calls(
    history: Seq<MessageView>,
    i: int,
    text: Option<Seq<char>>,
    tool_calls: Seq<ToolUseRequestView>,
)
    requires
        0 <= i < history.len(),
        history[i].content == (MessageContentView::ToolUse { text, tool_calls }),
    ensures
        ({
            let kept = tool_calls.filter(
                |c: ToolUseRequestView| paired(history, c.tool_use_id),
            );
            &&& kept.len() > 0 ==> {
                &&& place_of(history, i) < sanitized(history).len()
                &&& sanitized(history)[place_of(history, i)].role == history[i].role
                &&& sanitized(history)[place_of(history, i)].content matches
                    MessageContentView::ToolUse { text: said, tool_calls: calls }
                &&& said == text
                &&& calls == kept
            }
            &&& kept.len() == 0 && text is Some && text::trimmed(text->0).len() > 0 ==> {
                &&& place_of(history, i) < sanitized(history).len()
                &&& sanitized(history)[place_of(history, i)] == (MessageView {
                    role: history[i].role,
                    content: MessageContentView::Text(text->0),
                })
            }
        }),
{
    lemma_filtered(history, tool_calls);
    crate::restore::law_restored_texts_are_kept(history, i, i + 1);
}

proof fn lemma_filtered(history: Seq<MessageView>, calls: Seq<ToolUseRequestView>)
    ensures
        answered_calls(history, calls) == calls.filter(
            |c: ToolUseRequestView| paired(history, c.tool_use_id),
        ),
    decreases calls.len(),
{
    reveal(Seq::filter);
    let kept = calls.filter(|c: ToolUseRequestView| paired(history, c.tool_use_id));
    if calls.len() > 0 {
        lemma_filtered(history, calls.drop_last());
    } else {
        assert(kept =~= answered_calls(history, calls));
    }
}

/// A result that answers a call stays as it is: its output, and whether it is an error. One
/// that answers none goes, and so nothing else does.
pub proof fn law_what_stays_of_results(history: Seq<MessageView>, i: int)
    requires
        0 <= i < history.len(),
        history[i].content is ToolResult,
    ensures
        called_before(history, history[i].content->tool_use_id, i) ==> {
            &&& place_of(history, i) < sanitized(history).len()
            &&& sanitized(history)[place_of(history, i)] == history[i]
        },
        !paired(history, history[i].content->tool_use_id) ==> place_of(history, i + 1) == place_of(
            history,
            i,
        ),
{
    let id = history[i].content->tool_use_id;
    crate::restore::law_restored_texts_are_kept(history, i, i + 1);
    if called_before(history, id, i) {
        let j = choose|j: int|
            0 <= j < i && ((#[trigger] history[j]).content matches MessageContentView::ToolUse {
                tool_calls,
                ..
            } && (exists|k: int|
                0 <= k < tool_calls.len() && (#[trigger] tool_calls[k]).tool_use_id == id));
        assert(crate::restore::makes_call(history[j], id));
        assert(crate::restore::answers_call(history[i], id));
    }
    assert(history.take(i + 1).drop_last() =~= history.take(i));
    assert(history.take(i + 1).last() == history[i]);
}

/// What was cut off goes: a call that no result answers, and a result that answers no call.
pub proof fn law_what_was_cut_off_goes(
    history: Seq<MessageView>,
    id: Seq<char>,
    k: int,
    m: int,
)
    requires
        (forall|j: int|
            0 <= j < history.len() ==> !((#[trigger] history[j]).content matches
                MessageContentView::ToolResult { tool_use_id, .. } && tool_use_id == id)) || (
        forall|j: int|
            0 <= j < history.len() ==> !called_before(seq![#[trigger] history[j]], id, 1)),
        0 <= k < sanitized(history).len(),
    ensures
        sanitized(history)[k].content matches MessageContentView::ToolUse { tool_calls, .. } ==> (0
            <= m < tool_calls.len() ==> tool_calls[m].tool_use_id != id),
        sanitized(history)[k].content matches MessageContentView::ToolResult { tool_use_id, .. }
            ==> tool_use_id != id,
{
    assert(!paired(history, id)) by {
        if paired(history, id) {
            let i = choose|i: int|
                0 <= i < history.len() && crate::restore::makes_call(#[trigger] history[i], id);
            let j = choose|j: int|
                0 <= j < history.len() && crate::restore::answers_call(#[trigger] history[j], id);
            let one = seq![history[i]];
            assert(one[0] == history[i]);
            assert(called_before(one, id, 1));
            assert(history[j].content matches MessageContentView::ToolResult {
                tool_use_id,
                ..
            } && tool_use_id == id);
        }
    }
    lemma_left_is_paired(history, history, k, m);
}

proof fn lemma_left_is_paired(
    history: Seq<MessageView>,
    messages: Seq<MessageView>,
    k: int,
    m: int,
)
    requires
        0 <= k < left_of_all(history, messages).len(),
    ensures
        left_of_all(history, messages)[k].content matches MessageContentView::ToolUse {
            tool_calls,
            ..
        } ==> (0 <= m < tool_calls.len() ==> paired(history, tool_calls[m].tool_use_id)),
        left_of_all(history, messages)[k].content matches MessageContentView::ToolResult {
            tool_use_id,
            ..
        } ==> paired(history, tool_use_id),
    decreases messages.len(),
{
    if messages.len() > 0 {
        let front = messages.drop_last();
        let before = left_of_all(history, front);
        if k < before.len() {
            lemma_left_is_paired(history, front, k, m);
        } else if let MessageContentView::ToolUse { tool_calls, .. } = messages.last().content {
            lemma_kept_are_paired(history, tool_calls, m);
        }
    }
}

proof fn lemma_kept_are_paired(history: Seq<MessageView>, calls: Seq<ToolUseRequestView>, m: int)
    ensures
        0 <= m < answered_calls(history, calls).len() ==> paired(
            history,
            answered_calls(history, calls)[m].tool_use_id,
        ),
    decreases calls.len(),
{
    if calls.len() > 0 {
        lemma_kept_are_paired(history, calls.drop_last(), m);
    }
}

} // verus!
