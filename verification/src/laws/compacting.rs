//! What compaction is for: the summarizer sees everything that is given up, and the model
//! keeps the summary, the system prompt and what it has to answer.

use vstd::prelude::*;

use crate::compaction::{
    archived_history, call_line, call_lines, compacted, compaction_due, compaction_due_at,
    four_digits, initial_archived_result, micro_compacted_history, needs_archiving,
    result_for_history, safe_name, summary_request, tail_from, tool_name_of, transcript_block,
    transcript_blocks, CompactionSnapshotView, CompactionSource, CompactionTrigger,
};
use crate::compaction_run::{
    compaction_awaits, compaction_begun, compaction_move, CompactionActionView, CompactionEventView,
    CompactionOutcomeView, CompactionRunView,
};
use crate::context::{MemoryReason, MemoryStatus, SessionView};
use crate::laws::parts::{
    begins_with, ends_with, lemma_between, lemma_is_between, lemma_joined_sum, lemma_part_of_joined,
    lemma_part_of_part, lemma_part_of_sum, lemma_whole, part_of,
};
use crate::message::{MessageContentView, MessageView, Role, ToolUseRequestView};
use crate::model_call::ModelReplyView;
use crate::text;

verus! {

broadcast use vstd::seq::group_seq_axioms;

/// The transcript of messages.
pub open spec fn transcript_of(history: Seq<MessageView>) -> Seq<char> {
    text::joined(transcript_blocks(history), "\n\n"@)
}

/// What a message says that another model would have to know.
pub open spec fn says(message: MessageView, what: Seq<char>) -> bool {
    match message.content {
        MessageContentView::Text(content) => what == content,
        MessageContentView::ToolUse { text, tool_calls } => text == Some(what) || exists|k: int|
            0 <= k < tool_calls.len() && (what == (#[trigger] tool_calls[k]).tool_name || what
                == tool_calls[k].tool_use_id || what == tool_calls[k].arguments.json()),
        MessageContentView::ToolResult { tool_use_id, output, .. } => what == output || what
            == tool_use_id,
    }
}

proof fn lemma_call_line_holds(call: ToolUseRequestView)
    ensures
        part_of(call.tool_name, call_line(call)),
        part_of(call.tool_use_id, call_line(call)),
        part_of(call.arguments.json(), call_line(call)),
{
    let none = Seq::<char>::empty();
    let json = call.arguments.json();
    let a = "\n- "@;
    let b = a + call.tool_name + " id="@;
    let c = b + call.tool_use_id + " args="@;
    assert(call_line(call) =~= a + call.tool_name + (" id="@ + call.tool_use_id + " args="@
        + json));
    lemma_is_between(
        call_line(call),
        a,
        call.tool_name,
        " id="@ + call.tool_use_id + " args="@ + json,
    );
    assert(call_line(call) =~= b + call.tool_use_id + (" args="@ + json));
    lemma_is_between(call_line(call), b, call.tool_use_id, " args="@ + json);
    assert(call_line(call) =~= c + json + none);
    lemma_is_between(call_line(call), c, json, none);
}

proof fn lemma_call_lines_hold(calls: Seq<ToolUseRequestView>, k: int)
    requires
        0 <= k < calls.len(),
    ensures
        part_of(call_line(calls[k]), call_lines(calls)),
    decreases calls.len(),
{
    let front = call_lines(calls.drop_last());
    if k == calls.len() - 1 {
        lemma_whole(call_line(calls[k]));
        lemma_part_of_sum(call_line(calls[k]), front, call_line(calls.last()));
    } else {
        lemma_call_lines_hold(calls.drop_last(), k);
        assert(calls.drop_last()[k] == calls[k]);
        lemma_part_of_sum(call_line(calls[k]), front, call_line(calls.last()));
    }
}

proof fn lemma_block_says(message: MessageView, what: Seq<char>)
    requires
        says(message, what),
    ensures
        part_of(what, transcript_block(message)),
{
    let none = Seq::<char>::empty();
    let block = transcript_block(message);
    match message.content {
        MessageContentView::Text(content) => {
            let front = crate::message::role_text(message.role) + ":\n"@;
            assert(block =~= front + content + none);
            lemma_is_between(block, front, content, none);
        },
        MessageContentView::ToolUse { text: said, tool_calls } => {
            let start = "assistant tool_use:"@;
            let lines = call_lines(tool_calls);
            if said == Some(what) {
                assert(block =~= (start + "\n"@) + what + lines);
                lemma_is_between(block, start + "\n"@, what, lines);
            } else {
                let k = choose|k: int|
                    0 <= k < tool_calls.len() && (what == (#[trigger] tool_calls[k]).tool_name
                        || what == tool_calls[k].tool_use_id || what
                        == tool_calls[k].arguments.json());
                lemma_call_line_holds(tool_calls[k]);
                lemma_call_lines_hold(tool_calls, k);
                lemma_part_of_part(what, call_line(tool_calls[k]), lines);
                let front = start + (match said {
                    Some(content) => "\n"@ + content,
                    None => Seq::empty(),
                });
                assert(block == front + lines);
                lemma_part_of_sum(what, front, lines);
            }
        },
        MessageContentView::ToolResult { tool_use_id, output, is_error } => {
            let a = "tool result id="@;
            let b = " error="@ + text::flag_text(is_error) + ":\n"@;
            assert(block =~= a + tool_use_id + (b + output));
            lemma_is_between(block, a, tool_use_id, b + output);
            assert(block =~= (a + tool_use_id + b) + output + none);
            lemma_is_between(block, a + tool_use_id + b, output, none);
        },
    }
}

proof fn lemma_blocks_hold(history: Seq<MessageView>, i: int)
    requires
        0 <= i < history.len(),
        history[i].role != Role::System,
    ensures
        transcript_blocks(history).contains(transcript_block(history[i])),
    decreases history.len(),
{
    let front = transcript_blocks(history.drop_last());
    let all = transcript_blocks(history);
    if i == history.len() - 1 {
        assert(all[all.len() - 1] == transcript_block(history[i]));
    } else {
        lemma_blocks_hold(history.drop_last(), i);
        assert(history.drop_last()[i] == history[i]);
        let k = choose|k: int| 0 <= k < front.len() && front[k] == transcript_block(history[i]);
        assert(all[k] == front[k]);
    }
}

/// Whatever was said or done in a history, but for the system prompt, stands in its transcript
/// word for word: every text, every call with its arguments, and every output of a tool.
pub proof fn law_transcript_leaves_nothing_out(
    history: Seq<MessageView>,
    i: int,
    what: Seq<char>,
)
    requires
        0 <= i < history.len(),
        history[i].role != Role::System,
        says(history[i], what),
    ensures
        part_of(what, transcript_of(history)),
{
    let blocks = transcript_blocks(history);
    lemma_blocks_hold(history, i);
    lemma_block_says(history[i], what);
    let k = choose|k: int| 0 <= k < blocks.len() && blocks[k] == transcript_block(history[i]);
    lemma_part_of_joined(blocks, "\n\n"@, k);
    lemma_part_of_part(what, blocks[k], transcript_of(history));
}

proof fn lemma_blocks_add_up(first: Seq<MessageView>, second: Seq<MessageView>)
    ensures
        transcript_blocks(first + second) == transcript_blocks(first) + transcript_blocks(second),
    decreases second.len(),
{
    if second.len() == 0 {
        assert(first + second =~= first);
        assert(transcript_blocks(first) + transcript_blocks(second) =~= transcript_blocks(first));
    } else {
        lemma_blocks_add_up(first, second.drop_last());
        assert((first + second).drop_last() =~= first + second.drop_last());
        assert((first + second).last() == second.last());
        assert(transcript_blocks(first + second) =~= transcript_blocks(first) + transcript_blocks(
            second,
        ));
    }
}

/// The transcript is in the order of the history: that of two histories in a row is that of
/// the first and then that of the second.
pub proof fn law_transcript_is_in_order(first: Seq<MessageView>, second: Seq<MessageView>)
    ensures
        (exists|i: int| 0 <= i < first.len() && (#[trigger] first[i]).role != Role::System) && (
        exists|i: int| 0 <= i < second.len() && (#[trigger] second[i]).role != Role::System)
            ==> transcript_of(first + second) == transcript_of(first) + "\n\n"@ + transcript_of(
            second,
        ),
        (forall|i: int| 0 <= i < second.len() ==> (#[trigger] second[i]).role == Role::System)
            ==> transcript_of(first + second) == transcript_of(first),
        (forall|i: int| 0 <= i < first.len() ==> (#[trigger] first[i]).role == Role::System)
            ==> transcript_of(first + second) == transcript_of(second),
{
    lemma_blocks_add_up(first, second);
    let a = transcript_blocks(first);
    let b = transcript_blocks(second);
    if (exists|i: int| 0 <= i < first.len() && (#[trigger] first[i]).role != Role::System) && (
    exists|i: int| 0 <= i < second.len() && (#[trigger] second[i]).role != Role::System) {
        let i = choose|i: int| 0 <= i < first.len() && (#[trigger] first[i]).role != Role::System;
        let j = choose|i: int|
            0 <= i < second.len() && (#[trigger] second[i]).role != Role::System;
        lemma_blocks_hold(first, i);
        lemma_blocks_hold(second, j);
        lemma_joined_sum(a, b, "\n\n"@);
    }
    if forall|i: int| 0 <= i < second.len() ==> (#[trigger] second[i]).role == Role::System {
        lemma_no_blocks(second);
        assert(a + b =~= a);
    }
    if forall|i: int| 0 <= i < first.len() ==> (#[trigger] first[i]).role == Role::System {
        lemma_no_blocks(first);
        assert(a + b =~= b);
    }
}

proof fn lemma_no_blocks(history: Seq<MessageView>)
    requires
        forall|i: int| 0 <= i < history.len() ==> (#[trigger] history[i]).role == Role::System,
    ensures
        transcript_blocks(history).len() == 0,
    decreases history.len(),
{
    if history.len() > 0 {
        assert(history[history.len() - 1].role == Role::System);
        let front = history.drop_last();
        assert forall|i: int| 0 <= i < front.len() implies (#[trigger] front[i]).role
            == Role::System by {
            assert(front[i] == history[i]);
        }
        lemma_no_blocks(front);
    }
}

/// Messages of different roles, or results that ended differently, read differently in the
/// transcript.
pub proof fn law_transcript_tells_who_spoke(
    message: MessageView,
    role: Role,
    is_error: bool,
)
    ensures
        message.content is Text && message.role != role && message.role != Role::System && role
            != Role::System ==> transcript_of(seq![message]) != transcript_of(
            seq![MessageView { role, content: message.content }],
        ),
        message.content matches MessageContentView::ToolResult {
            tool_use_id,
            output,
            is_error: ended,
        } ==> (ended != is_error && message.role != Role::System ==> transcript_of(seq![message])
            != transcript_of(
            seq![
                MessageView {
                    role: message.role,
                    content: MessageContentView::ToolResult { tool_use_id, output, is_error },
                },
            ],
        )),
{
    reveal_strlit("system");
    reveal_strlit("user");
    reveal_strlit("assistant");
    reveal_strlit("tool");
    reveal_strlit("true");
    reveal_strlit("false");
    assert("user"@[0] != "assistant"@[0] && "user"@[0] != "tool"@[0] && "assistant"@[0]
        != "tool"@[0]);
    lemma_one_block(message);
    match message.content {
        MessageContentView::Text(content) => {
            if message.role != role && role != Role::System && message.role != Role::System {
                let other = MessageView { role, content: message.content };
                lemma_one_block(other);
                assert(transcript_block(message)[0] == crate::message::role_text(message.role)[0]);
                assert(transcript_block(other)[0] == crate::message::role_text(role)[0]);
            }
        },
        MessageContentView::ToolResult { tool_use_id, output, is_error: ended } => {
            if ended != is_error && message.role != Role::System {
                let other = MessageView {
                    role: message.role,
                    content: MessageContentView::ToolResult { tool_use_id, output, is_error },
                };
                lemma_one_block(other);
                let a = "tool result id="@ + tool_use_id + " error="@;
                let n = a.len() as int;
                assert(transcript_block(message)[n] == text::flag_text(ended)[0]);
                assert(transcript_block(other)[n] == text::flag_text(is_error)[0]);
            }
        },
        _ => {},
    }
}

proof fn lemma_one_block(message: MessageView)
    ensures
        message.role != Role::System ==> transcript_of(seq![message]) == transcript_block(message),
{
    let one = seq![message];
    assert(one.drop_last() =~= Seq::empty());
    assert(one.last() == message);
    assert(transcript_blocks(Seq::<MessageView>::empty()) =~= Seq::empty());
    if message.role != Role::System {
        assert(transcript_blocks(one) =~= seq![transcript_block(message)]);
    }
}

/// The summarizer is asked with the transcript of everything in front of the live tail, and is
/// told where the archive is.
pub proof fn law_summarizer_sees_what_goes(
    run: CompactionRunView,
    session: SessionView,
)
    requires
        compaction_awaits(run, CompactionEventView::Memory(None)),
    ensures
        ({
            let after = compaction_move(run, session, CompactionEventView::Memory(None));
            &&& after.action matches CompactionActionView::Summarize(messages)
            &&& after.session == session
            &&& messages.len() == 2
            &&& messages[0].role == Role::System
            &&& messages[1].role == Role::User
            &&& messages[1].content matches MessageContentView::Text(request)
            &&& ends_with(
                request,
                transcript_of(session.history.take(tail_from(session.history))),
            )
            &&& part_of(run.archive_ref, request)
        }),
{
    let shown = session.history.take(tail_from(session.history));
    let request = summary_request(run.archive_ref, run.trigger, shown);
    let front = "Archive reference: "@ + run.archive_ref + "\nTrigger: "@
        + crate::compaction::trigger_text(run.trigger)
        + "\nSummarize the transcript below so another LLM call can continue the session without needing the full transcript.\n\n"@;
    assert(request == front + transcript_of(shown));
    assert(request.skip(front.len() as int) =~= transcript_of(shown));
    lemma_between(
        "Archive reference: "@,
        run.archive_ref,
        "\nTrigger: "@ + crate::compaction::trigger_text(run.trigger)
            + "\nSummarize the transcript below so another LLM call can continue the session without needing the full transcript.\n\n"@
            + transcript_of(shown),
    );
    assert(request =~= "Archive reference: "@ + run.archive_ref + ("\nTrigger: "@
        + crate::compaction::trigger_text(run.trigger)
        + "\nSummarize the transcript below so another LLM call can continue the session without needing the full transcript.\n\n"@
        + transcript_of(shown)));
}

/// Where the part begins that the model has to answer: at the user message with which a
/// history ends, or at the calls whose results are last. Everything in front of it may go.
pub proof fn law_live_tail(
    history: Seq<MessageView>,
    results: Seq<MessageView>,
    last: MessageView,
)
    requires
        forall|i: int|
            0 <= i < results.len() ==> (#[trigger] results[i]).content is ToolResult,
        results.len() > 0,
    ensures
        last.role == Role::User && last.content is Text ==> tail_from(history.push(last))
            == history.len(),
        last.content is ToolUse ==> tail_from(history.push(last)) == history.len(),
        last.content is ToolUse ==> tail_from(history.push(last) + results) == history.len(),
        last.role == Role::Assistant && last.content is Text ==> tail_from(history.push(last))
            == history.len() + 1,
{
    if last.content is ToolUse {
        lemma_results_at_the_end(history.push(last), results);
        let all = history.push(last) + results;
        assert(all.last() == results[results.len() - 1]);
        assert(all[history.len() as int] == last);
    }
}

proof fn lemma_results_at_the_end(history: Seq<MessageView>, results: Seq<MessageView>)
    requires
        history.len() > 0,
        !(history.last().content is ToolResult),
        forall|i: int|
            0 <= i < results.len() ==> (#[trigger] results[i]).content is ToolResult,
    ensures
        crate::compaction::results_start(history + results) == history.len(),
    decreases results.len(),
{
    let all = history + results;
    if results.len() == 0 {
        assert(all =~= history);
    } else {
        let front = results.drop_last();
        assert forall|i: int| 0 <= i < front.len() implies (#[trigger] front[i]).content
            is ToolResult by {
            assert(front[i] == results[i]);
        }
        assert(all.last() == results[results.len() - 1]);
        assert(all.drop_last() =~= history + front);
        lemma_results_at_the_end(history, front);
    }
}

/// What a history is after compaction: the system prompt where there was one, one message of
/// the assistant that gives the summary and names the archive, and the messages that stay, as
/// they were.
pub proof fn law_compacted_history(
    history: Seq<MessageView>,
    summary: Seq<char>,
    archive_ref: Seq<char>,
    tail: Seq<MessageView>,
)
    ensures
        ({
            let after = compacted(history, summary, archive_ref, tail);
            let prompt: int = if history.len() > 0 && history[0].role == Role::System {
                1
            } else {
                0
            };
            &&& after.len() == prompt + 1 + tail.len()
            &&& prompt == 1 ==> after[0] == history[0]
            &&& after[prompt].role == Role::Assistant
            &&& after[prompt].content matches MessageContentView::Text(told)
            &&& ends_with(told, summary)
            &&& part_of(archive_ref, told)
            &&& after.skip(prompt + 1) == tail
        }),
{
    let after = compacted(history, summary, archive_ref, tail);
    let prompt: int = if history.len() > 0 && history[0].role == Role::System {
        1
    } else {
        0
    };
    let a = "Context compacted from archive `"@;
    let told = a + archive_ref + "`.\n\n"@ + summary;
    assert(told.skip((a + archive_ref + "`.\n\n"@).len() as int) =~= summary);
    lemma_between(a, archive_ref, "`.\n\n"@ + summary);
    assert(told =~= a + archive_ref + ("`.\n\n"@ + summary));
    assert(after.skip(prompt + 1) =~= tail);
}

/// A compaction is done with what the model said, trimmed, and keeps the live tail; with the
/// memory it keeps everything behind what the memory covers.
pub proof fn law_compaction_uses_the_summary(
    run: CompactionRunView,
    session: SessionView,
    said: Seq<char>,
    usage: Option<crate::message::TokenUsage>,
    snapshot: CompactionSnapshotView,
)
    requires
        session.history.len() <= usize::MAX,
        snapshot.last_summarized_message_index < usize::MAX,
    ensures
        ({
            let after = compaction_move(
                run,
                session,
                CompactionEventView::Summary(ModelReplyView::Text { text: said, usage }),
            );
            &&& after.action == CompactionActionView::Finished(CompactionOutcomeView::Done)
            &&& after.session.history == compacted(
                session.history,
                text::trimmed(said),
                run.archive_ref,
                session.history.skip(tail_from(session.history)),
            )
        }),
        ({
            let covered = snapshot.last_summarized_message_index;
            let after = compaction_move(
                run,
                session,
                CompactionEventView::Memory(Some(snapshot)),
            );
            let usable = covered < tail_from(session.history)
                && (session.memory.last_summarized_message_index matches Some(known) ==> known
                == covered);
            &&& usable ==> after.action == CompactionActionView::Finished(
                CompactionOutcomeView::Done,
            )
            &&& usable ==> after.session.history == compacted(
                session.history,
                text::trimmed(snapshot.summary_markdown),
                run.archive_ref,
                session.history.skip(covered + 1),
            )
            &&& !usable ==> after.action is Summarize && after.session == session
        }),
{
    crate::compaction::lemma_tail_from(session.history);
}

/// An archive that was made is the one that is named; an archive that could not be made ends
/// the compaction with the reason.
pub proof fn law_archive_is_named(
    run: CompactionRunView,
    session: SessionView,
    archive_ref: Seq<char>,
    error: Seq<char>,
    model_error: crate::error::CoreErrorView,
)
    ensures
        ({
            let after = compaction_move(run, session, CompactionEventView::Archived(archive_ref));
            &&& after.run.archive_ref == archive_ref
            &&& after.run.trigger == run.trigger
            &&& after.run.generation == run.generation
            &&& after.action is ReadMemory
        }),
        ({
            let after = compaction_move(
                run,
                session,
                CompactionEventView::ArchivingFailed(error),
            );
            &&& after.session == session
            &&& after.action matches CompactionActionView::Finished(
                CompactionOutcomeView::Failed(crate::error::CoreErrorView::Internal { message }),
            ) && message == "failed to archive transcript: "@ + error
        }),
        compaction_move(run, session, CompactionEventView::SummaryFailed(model_error)).action
            == CompactionActionView::Finished(CompactionOutcomeView::Failed(model_error)),
{
}

/// A tool result that is archived keeps its call and whether it was an error, names its
/// archive and its tool, and keeps the beginning of its output; a short output stays whole.
/// All other messages stay as they are.
pub proof fn law_archived_results_can_be_found(
    history: Seq<MessageView>,
    archives: Seq<Option<Seq<char>>>,
    i: int,
)
    requires
        0 <= i < history.len(),
        archives.len() == history.len(),
    ensures
        ({
            let after = archived_history(history, archives);
            &&& after.len() == history.len()
            &&& after[i].role == history[i].role
            &&& !(history[i].content is ToolResult) || archives[i] is None || i >= tail_from(
                history,
            ) ==> after[i] == history[i]
            &&& history[i].content matches MessageContentView::ToolResult {
                tool_use_id,
                output,
                is_error,
            } ==> (after[i].content matches MessageContentView::ToolResult {
                tool_use_id: kept_id,
                output: kept,
                is_error: kept_error,
            } && kept_id == tool_use_id && kept_error == is_error)
            &&& history[i].content matches MessageContentView::ToolResult {
                tool_use_id,
                output,
                is_error,
            } ==> (archives[i] matches Some(archive_ref) ==> (i < tail_from(history)
                && !begins_with(output, "[tool result archived:"@) ==> {
                let kept = after[i].content->output;
                &&& part_of(archive_ref, kept)
                &&& part_of(tool_use_id, kept)
                &&& begins_with(kept, "[tool result archived:"@)
                &&& output.len() <= 800 ==> ends_with(kept, output)
                &&& tool_name_of(history, tool_use_id) matches Some(name) ==> part_of(name, kept)
            }))
        }),
{
    if let MessageContentView::ToolResult { tool_use_id, output, is_error } = history[i].content {
        if let Some(archive_ref) = archives[i] {
            assert(begins_with(output, "[tool result archived:"@)
                <==> "[tool result archived:"@.is_prefix_of(output)) by {
                let start = "[tool result archived:"@;
                if start.len() <= output.len() {
                    assert(output.take(start.len() as int) =~= output.subrange(
                        0,
                        start.len() as int,
                    ));
                }
            }
            let name = match tool_name_of(history, tool_use_id) {
                Some(name) => name,
                None => "unknown"@,
            };
            lemma_header_holds(name, tool_use_id, is_error, output.len(), archive_ref);
            let header = crate::compaction::archive_header(
                name,
                tool_use_id,
                is_error,
                output.len(),
                archive_ref,
            );
            let whole = crate::compaction::archived_result(
                name,
                tool_use_id,
                is_error,
                output,
                archive_ref,
            );
            let rest = whole.skip(header.len() as int);
            assert(whole =~= header + rest);
            lemma_part_of_sum(archive_ref, header, rest);
            lemma_part_of_sum(tool_use_id, header, rest);
            lemma_part_of_sum(name, header, rest);
            assert(whole.take("[tool result archived:"@.len() as int)
                =~= "[tool result archived:"@);
            if output.len() <= 800 {
                assert(whole.skip(header.len() as int) =~= output);
            }
        }
    }
}

proof fn lemma_header_holds(
    name: Seq<char>,
    id: Seq<char>,
    is_error: bool,
    length: nat,
    archive_ref: Seq<char>,
)
    ensures
        ({
            let header = crate::compaction::archive_header(name, id, is_error, length, archive_ref);
            &&& part_of(name, header)
            &&& part_of(id, header)
            &&& part_of(archive_ref, header)
            &&& begins_with(header, "[tool result archived:"@)
        }),
{
    let header = crate::compaction::archive_header(name, id, is_error, length, archive_ref);
    let a = "[tool result archived:"@ + " "@;
    let b = ", "@ + crate::compaction::status_text(is_error) + ", "@ + text::digits(length)
        + " chars, id="@;
    let c = ", archive="@;
    let d = "]\n"@;
    assert(header =~= a + name + (b + id + c + archive_ref + d));
    lemma_is_between(header, a, name, b + id + c + archive_ref + d);
    assert(header =~= (a + name + b) + id + (c + archive_ref + d));
    lemma_is_between(header, a + name + b, id, c + archive_ref + d);
    assert(header =~= (a + name + b + id + c) + archive_ref + d);
    lemma_is_between(header, a + name + b + id + c, archive_ref, d);
    assert(header.take("[tool result archived:"@.len() as int) =~= "[tool result archived:"@);
}

/// A result that is short enough goes into the history whole. One that is too long goes there
/// with where the whole of it is, and its first lines.
pub proof fn law_results_go_into_the_history(
    tool_name: Seq<char>,
    tool_use_id: Seq<char>,
    is_error: bool,
    output: Seq<char>,
    archive_ref: Seq<char>,
)
    ensures
        ({
            let kept = result_for_history(tool_name, tool_use_id, is_error, output, archive_ref);
            &&& output.len() <= crate::compaction::MAX_TOOL_RESULT_CHARS_IN_HISTORY ==> kept
                == output
            &&& output.len() > crate::compaction::MAX_TOOL_RESULT_CHARS_IN_HISTORY ==> {
                &&& part_of(archive_ref, kept)
                &&& part_of(tool_use_id, kept)
                &&& part_of(tool_name, kept)
                &&& part_of(crate::compaction::preview(output), kept)
            }
        }),
{
    let kept = initial_archived_result(tool_name, tool_use_id, is_error, output, archive_ref);
    let header = crate::compaction::archive_header(
        tool_name,
        tool_use_id,
        is_error,
        output.len(),
        archive_ref,
    );
    let shown = crate::compaction::preview(output);
    lemma_header_holds(tool_name, tool_use_id, is_error, output.len(), archive_ref);
    let back = kept.skip((header + shown).len() as int);
    assert(kept =~= header + shown + back);
    lemma_between(header, shown, back);
    assert(kept =~= header + (shown + back));
    lemma_part_of_sum(archive_ref, header, shown + back);
    lemma_part_of_sum(tool_use_id, header, shown + back);
    lemma_part_of_sum(tool_name, header, shown + back);
}

/// The preview of a result is the beginning of its lines, in order, and all of them where they
/// are few.
pub proof fn law_preview_is_the_beginning(output: Seq<char>, i: int)
    requires
        0 <= i < text::line_list(output).len(),
        i < crate::compaction::INITIAL_TOOL_RESULT_PREVIEW_LINES,
    ensures
        part_of(text::line_list(output)[i], crate::compaction::preview(output)),
        text::line_list(output).len() <= crate::compaction::INITIAL_TOOL_RESULT_PREVIEW_LINES
            ==> crate::compaction::preview(output) == text::joined(
            text::line_list(output),
            "\n"@,
        ),
{
    let lines = text::line_list(output);
    let shown = if lines.len() > crate::compaction::INITIAL_TOOL_RESULT_PREVIEW_LINES {
        lines.take(crate::compaction::INITIAL_TOOL_RESULT_PREVIEW_LINES as int)
    } else {
        lines
    };
    assert(shown[i] == lines[i]);
    lemma_part_of_joined(shown, "\n"@, i);
}

/// What stands for a result that was left out names the call and its tool; every other message
/// and everything in the live tail stays.
pub proof fn law_placeholder_names_the_call(history: Seq<MessageView>, i: int)
    requires
        0 <= i < history.len(),
    ensures
        ({
            let after = micro_compacted_history(history);
            &&& after.len() == history.len()
            &&& !(history[i].content is ToolResult) || i >= tail_from(history) ==> after[i]
                == history[i]
            &&& history[i].content is ToolResult && i < tail_from(history) ==> {
                &&& after[i].role == history[i].role
                &&& after[i].content is ToolResult
                &&& after[i].content->tool_use_id == history[i].content->tool_use_id
                &&& after[i].content->is_error == history[i].content->is_error
                &&& part_of(history[i].content->tool_use_id, after[i].content->output)
                &&& tool_name_of(history, history[i].content->tool_use_id) matches Some(name)
                    ==> part_of(name, after[i].content->output)
            }
        }),
{
    if let MessageContentView::ToolResult { tool_use_id, output, is_error } = history[i].content {
        let known = tool_name_of(history, tool_use_id);
        let length = crate::compaction::byte_length(output);
        let whole = crate::compaction::placeholder(known, tool_use_id, is_error, length);
        let front = "[tool result elided: "@ + (match known {
            Some(name) => name + ", "@,
            None => Seq::empty(),
        }) + crate::compaction::status_text(is_error) + ", "@ + text::digits(length)
            + " chars, id="@;
        lemma_is_between(whole, front, tool_use_id, "]"@);
        if let Some(name) = known {
            let back = ", "@ + crate::compaction::status_text(is_error) + ", "@ + text::digits(
                length,
            ) + " chars, id="@ + tool_use_id + "]"@;
            assert(whole =~= "[tool result elided: "@ + name + back);
            lemma_is_between(whole, "[tool result elided: "@, name, back);
        }
    }
}

/// The tool of a call is the one that the last call of that name asked for.
pub proof fn law_tool_of_a_call(
    history: Seq<MessageView>,
    message: MessageView,
    text: Option<Seq<char>>,
    calls: Seq<ToolUseRequestView>,
    k: int,
)
    requires
        message.content == (MessageContentView::ToolUse { text, tool_calls: calls }),
        0 <= k < calls.len(),
        forall|j: int| k < j < calls.len() ==> (#[trigger] calls[j]).tool_use_id
            != calls[k].tool_use_id,
    ensures
        tool_name_of(history.push(message), calls[k].tool_use_id) == Some(calls[k].tool_name),
{
    assert(history.push(message).drop_last() =~= history);
    lemma_call_name(calls, k);
}

proof fn lemma_call_name(calls: Seq<ToolUseRequestView>, k: int)
    requires
        0 <= k < calls.len(),
        forall|j: int| k < j < calls.len() ==> (#[trigger] calls[j]).tool_use_id
            != calls[k].tool_use_id,
    ensures
        crate::compaction::call_name(calls, calls[k].tool_use_id) == Some(calls[k].tool_name),
    decreases calls.len(),
{
    if k < calls.len() - 1 {
        assert(calls[calls.len() - 1].tool_use_id != calls[k].tool_use_id);
        assert(calls.drop_last()[k] == calls[k]);
        assert forall|j: int| k < j < calls.drop_last().len() implies (
        #[trigger] calls.drop_last()[j]).tool_use_id != calls.drop_last()[k].tool_use_id by {
            assert(calls.drop_last()[j] == calls[j]);
        }
        lemma_call_name(calls.drop_last(), k);
    }
}

/// Whether a character can stand in the name of a file.
pub open spec fn fits_file_name(c: char) -> bool {
    let n = c as u32;
    ||| 97 <= n <= 122
    ||| 65 <= n <= 90
    ||| 48 <= n <= 57
    ||| c == '-'
    ||| c == '_'
}

/// A name that is made safe for a file is as long as it was, has nothing but letters, digits,
/// hyphens and underscores, and is the same wherever it was safe.
pub proof fn law_safe_names(id: Seq<char>, i: int)
    requires
        0 <= i < id.len(),
    ensures
        safe_name(id).len() == id.len(),
        fits_file_name(safe_name(id)[i]),
        fits_file_name(id[i]) ==> safe_name(id)[i] == id[i],
        !fits_file_name(id[i]) ==> safe_name(id)[i] == '_',
{
}

/// A compaction is begun where there is something in front of the live tail that is not the
/// system prompt, with the next number. Nothing changes before it is done.
pub proof fn law_compaction_begins(session: SessionView, trigger: CompactionTrigger, i: int)
    requires
        session.compaction_generation < u64::MAX,
    ensures
        ({
            let begun = compaction_begun(session, trigger);
            &&& begun.session == session
            &&& begun.run.trigger == trigger
            &&& begun.run.generation == session.compaction_generation + 1
            &&& 0 <= i < tail_from(session.history) && session.history[i].role != Role::System
                ==> begun.action == (CompactionActionView::Archive {
                generation: (session.compaction_generation + 1) as u64,
            })
            &&& (forall|j: int|
                0 <= j < tail_from(session.history) ==> (#[trigger] session.history[j]).role
                    == Role::System) ==> begun.action == CompactionActionView::Finished(
                CompactionOutcomeView::Unneeded,
            )
        }),
{
    if 0 <= i < tail_from(session.history) && session.history[i].role != Role::System {
        assert(crate::compaction::worth_compacting(session.history));
    }
}

/// A compaction that is done leaves of the session all but its history, the tokens that were
/// counted, the number of its compactions and the notes on them.
pub proof fn law_compaction_leaves_the_rest(
    run: CompactionRunView,
    session: SessionView,
    event: CompactionEventView,
)
    ensures
        ({
            let after = compaction_move(run, session, event).session;
            let done = compaction_move(run, session, event).action
                == CompactionActionView::Finished(CompactionOutcomeView::Done);
            &&& !done ==> after == session
            &&& done ==> after.last_input_tokens is None && after.compaction_generation
                == run.generation
            &&& done ==> (after.diagnostics matches Some(noted) && (
            noted.compaction_source matches Some(source) && (source
                == CompactionSource::SessionMemory <==> event is Memory)))
            &&& after == (SessionView {
                history: after.history,
                last_input_tokens: after.last_input_tokens,
                compaction_generation: after.compaction_generation,
                diagnostics: after.diagnostics,
                ..session
            })
        }),
{
}

/// A window is full at three fifths of it, or at the percentage that is asked for.
pub proof fn law_full_windows(window: u64, tokens: u64, percent: u8)
    ensures
        window * 3 <= u64::MAX && tokens * 5 >= window * 3 ==> compaction_due(
            Some(window),
            Some(tokens),
        ),
        window * 3 <= u64::MAX && (tokens + 1) * 5 <= window * 3 ==> !compaction_due(
            Some(window),
            Some(tokens),
        ),
        window * percent <= u64::MAX && tokens * 100 >= window * percent ==> compaction_due_at(
            Some(window),
            Some(tokens),
            percent,
        ),
        window * percent <= u64::MAX && (tokens + 1) * 100 <= window * percent
            ==> !compaction_due_at(Some(window), Some(tokens), percent),
        !compaction_due(None, Some(tokens)) && !compaction_due(Some(window), None),
        !compaction_due_at(None, Some(tokens), percent) && !compaction_due_at(
            Some(window),
            None,
            percent,
        ),
{
    let product = window * percent;
    assert(product / 100 * 100 <= product < product / 100 * 100 + 100);
    let other = window * 3;
    assert(other / 5 * 5 <= other < other / 5 * 5 + 5);
}

/// Which results are archived: those in front of the live tail that are not archived yet. A
/// result that was archived is not archived again.
pub proof fn law_what_is_archived(history: Seq<MessageView>, i: int)
    requires
        0 <= i < history.len(),
    ensures
        needs_archiving(history, i) ==> history[i].content is ToolResult && i < tail_from(history),
        history[i].content matches MessageContentView::ToolResult { output, .. } ==> (i < tail_from(
            history,
        ) && !begins_with(output, "[tool result archived:"@) ==> needs_archiving(history, i)),
        history[i].content matches MessageContentView::ToolResult { output, .. } ==> (begins_with(
            output,
            "[tool result archived:"@,
        ) ==> !needs_archiving(history, i)),
{
    if let MessageContentView::ToolResult { output, .. } = history[i].content {
        let start = "[tool result archived:"@;
        if start.len() <= output.len() {
            assert(output.take(start.len() as int) =~= output.subrange(0, start.len() as int));
        }
    }
}

/// A long result keeps its beginning and its end when it is archived.
pub proof fn law_long_results_keep_their_ends(
    tool_name: Seq<char>,
    tool_use_id: Seq<char>,
    is_error: bool,
    output: Seq<char>,
    archive_ref: Seq<char>,
)
    requires
        output.len() > crate::compaction::TOOL_RESULT_PREVIEW_HEAD_CHARS,
    ensures
        ({
            let kept = crate::compaction::archived_result(
                tool_name,
                tool_use_id,
                is_error,
                output,
                archive_ref,
            );
            let tail = crate::compaction::TOOL_RESULT_PREVIEW_TAIL_CHARS as int;
            &&& part_of(
                output.take(crate::compaction::TOOL_RESULT_PREVIEW_HEAD_CHARS as int),
                kept,
            )
            &&& output.len() >= tail ==> ends_with(kept, output.skip(output.len() - tail))
        }),
{
    let kept = crate::compaction::archived_result(
        tool_name,
        tool_use_id,
        is_error,
        output,
        archive_ref,
    );
    let header = crate::compaction::archive_header(
        tool_name,
        tool_use_id,
        is_error,
        output.len(),
        archive_ref,
    );
    let head = output.take(crate::compaction::TOOL_RESULT_PREVIEW_HEAD_CHARS as int);
    let end = text::last_chars(output, crate::compaction::TOOL_RESULT_PREVIEW_TAIL_CHARS as nat);
    assert(kept =~= header + head + ("\n\n[... elided ...]\n\n"@ + end));
    lemma_is_between(kept, header, head, "\n\n[... elided ...]\n\n"@ + end);
    assert(kept.skip(kept.len() - end.len()) =~= end);
    if output.len() == end.len() {
        assert(output.skip(0) =~= output);
    }
}

/// The number of an archive is read back from the name of its file, which has at least four
/// digits.
pub proof fn law_numbers_of_archives(n: nat)
    ensures
        text::digits_value(four_digits(n)) == n,
        four_digits(n).len() >= 4,
        n >= 1000 ==> four_digits(n) == text::digits(n),
{
    crate::laws::texts::law_numbers_are_read_back(n);
    reveal_strlit("0");
    reveal_strlit("00");
    reveal_strlit("000");
    lemma_leading_zeros("0"@, text::digits(n));
    lemma_leading_zeros("00"@, text::digits(n));
    lemma_leading_zeros("000"@, text::digits(n));
    lemma_number_of_digits(n);
}

proof fn lemma_number_of_digits(n: nat)
    ensures
        n < 10 ==> text::digits(n).len() == 1,
        10 <= n < 100 ==> text::digits(n).len() == 2,
        100 <= n < 1000 ==> text::digits(n).len() == 3,
        n >= 1000 ==> text::digits(n).len() >= 4,
    decreases n,
{
    if n >= 10 {
        lemma_number_of_digits(n / 10);
    }
}

proof fn lemma_leading_zeros(zeros: Seq<char>, s: Seq<char>)
    requires
        forall|i: int| 0 <= i < zeros.len() ==> (#[trigger] zeros[i]) == '0',
    ensures
        text::digits_value(zeros + s) == text::digits_value(s),
    decreases zeros.len() + s.len(),
{
    let all = zeros + s;
    if s.len() > 0 {
        lemma_leading_zeros(zeros, s.drop_last());
        assert(all.drop_last() =~= zeros + s.drop_last());
        assert(all.last() == s.last());
    } else if zeros.len() > 0 {
        let front = zeros.drop_last();
        assert forall|i: int| 0 <= i < front.len() implies (#[trigger] front[i]) == '0' by {
            assert(front[i] == zeros[i]);
        }
        lemma_leading_zeros(front, s);
        assert(all =~= zeros);
        assert(front + s =~= front);
        assert(zeros[zeros.len() - 1] == '0');
    } else {
        assert(all =~= s);
    }
}

/// What stands for a result that was archived or left out says how long the result was and how
/// it ended, and how many of its lines are left out.
pub proof fn law_length_of_what_is_left_out(
    tool_name: Seq<char>,
    tool_use_id: Seq<char>,
    is_error: bool,
    output: Seq<char>,
    archive_ref: Seq<char>,
    length: nat,
)
    ensures
        ({
            let kept = crate::compaction::archived_result(
                tool_name,
                tool_use_id,
                is_error,
                output,
                archive_ref,
            );
            let shown = initial_archived_result(
                tool_name,
                tool_use_id,
                is_error,
                output,
                archive_ref,
            );
            let lines = text::line_list(output).len();
            let most = crate::compaction::INITIAL_TOOL_RESULT_PREVIEW_LINES;
            let elided = crate::compaction::placeholder(
                Some(tool_name),
                tool_use_id,
                is_error,
                length,
            );
            let ended = if is_error {
                "error"@
            } else {
                "ok"@
            };
            &&& part_of(ended + ", "@ + text::digits(output.len()) + " chars"@, kept)
            &&& part_of(ended + ", "@ + text::digits(output.len()) + " chars"@, shown)
            &&& part_of(ended + ", "@ + text::digits(length) + " chars"@, elided)
            &&& lines > most ==> part_of(text::digits((lines - most) as nat), shown)
        }),
{
    let header = crate::compaction::archive_header(
        tool_name,
        tool_use_id,
        is_error,
        output.len(),
        archive_ref,
    );
    let kept = crate::compaction::archived_result(
        tool_name,
        tool_use_id,
        is_error,
        output,
        archive_ref,
    );
    let shown = initial_archived_result(tool_name, tool_use_id, is_error, output, archive_ref);
    let ended = crate::compaction::status_text(is_error);
    let told = ended + ", "@ + text::digits(output.len()) + " chars"@;
    reveal_strlit(" chars, id=");
    reveal_strlit(" chars");
    assert(" chars, id="@.take(6) =~= " chars"@);
    let n = "[tool result archived:"@.len() + " "@.len() + tool_name.len() + ", "@.len();
    lemma_told_in(header, told, n as int);
    assert(kept =~= header + kept.skip(header.len() as int));
    lemma_part_of_sum(told, header, kept.skip(header.len() as int));
    assert(shown =~= header + shown.skip(header.len() as int));
    lemma_part_of_sum(told, header, shown.skip(header.len() as int));
    let elided = crate::compaction::placeholder(Some(tool_name), tool_use_id, is_error, length);
    let other = ended + ", "@ + text::digits(length) + " chars"@;
    let m = "[tool result elided: "@.len() + tool_name.len() + ", "@.len();
    lemma_told_in(elided, other, m as int);
    let lines = text::line_list(output).len();
    let most = crate::compaction::INITIAL_TOOL_RESULT_PREVIEW_LINES;
    if lines > most {
        let number = text::digits((lines - most) as nat);
        let front = header + crate::compaction::preview(output) + "\n\n[... omitted "@;
        let back = " more line(s); full tool result archived at "@ + archive_ref + " ...]"@;
        assert(shown =~= front + number + back);
        lemma_is_between(shown, front, number, back);
    }
}

proof fn lemma_told_in(whole: Seq<char>, told: Seq<char>, at: int)
    requires
        0 <= at <= whole.len() - told.len(),
        forall|i: int| 0 <= i < told.len() ==> whole[at + i] == #[trigger] told[i],
    ensures
        part_of(told, whole),
{
    assert(whole.subrange(at, at + told.len()) =~= told);
    assert(crate::laws::parts::stands_at(told, whole, at));
}

/// The summarizer is told what has begun the compaction.
pub proof fn law_trigger_is_told(
    archive_ref: Seq<char>,
    trigger: CompactionTrigger,
    history: Seq<MessageView>,
)
    ensures
        trigger == CompactionTrigger::Auto ==> part_of(
            "Trigger: auto"@,
            summary_request(archive_ref, trigger, history),
        ),
        trigger == CompactionTrigger::Manual ==> part_of(
            "Trigger: manual"@,
            summary_request(archive_ref, trigger, history),
        ),
{
    let request = summary_request(archive_ref, trigger, history);
    reveal_strlit("\nTrigger: ");
    reveal_strlit("Trigger: auto");
    reveal_strlit("Trigger: manual");
    reveal_strlit("auto");
    reveal_strlit("manual");
    let n = "Archive reference: "@.len() + archive_ref.len() + 1;
    if trigger == CompactionTrigger::Auto {
        lemma_told_in(request, "Trigger: auto"@, n as int);
    } else {
        lemma_told_in(request, "Trigger: manual"@, n as int);
    }
}

/// What is noted of a compaction: where its summary came from, and where what it kept begins.
pub proof fn law_compaction_is_noted(
    run: CompactionRunView,
    session: SessionView,
    snapshot: CompactionSnapshotView,
    said: Seq<char>,
    usage: Option<crate::message::TokenUsage>,
)
    requires
        session.history.len() <= usize::MAX,
        snapshot.last_summarized_message_index < tail_from(session.history),
        session.memory.last_summarized_message_index == Some(
            snapshot.last_summarized_message_index,
        ),
    ensures
        ({
            let memory = compaction_move(
                run,
                session,
                CompactionEventView::Memory(Some(snapshot)),
            ).session;
            let summary = compaction_move(
                run,
                session,
                CompactionEventView::Summary(ModelReplyView::Text { text: said, usage }),
            ).session;
            &&& memory.diagnostics matches Some(noted)
            &&& noted.compaction_status == MemoryStatus::Succeeded
            &&& noted.compaction_reason is None
            &&& noted.compaction_tail_start == Some(
                (snapshot.last_summarized_message_index + 1) as usize,
            )
            &&& summary.diagnostics matches Some(noted)
            &&& noted.compaction_status == MemoryStatus::Skipped
            &&& noted.compaction_reason == Some(MemoryReason::Fallback)
            &&& noted.compaction_tail_start == Some(tail_from(session.history) as usize)
        }),
{
    crate::compaction::lemma_tail_from(session.history);
}

} // verus!
