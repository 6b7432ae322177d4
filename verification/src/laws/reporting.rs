//! What status reports are for: how far a turn is, and what it is about.

use vstd::prelude::*;

use crate::laws::parts::{
    begins_with, ends_with, lemma_is_between, lemma_part_of_joined, lemma_part_of_part, part_of,
};
use crate::message::{MessageContentView, MessageView, Role};
use crate::status_report::{
    call_count_text, current_turn, first_request, last_position, model_report, payload_texts,
    periodic_report_due, plain_report, report_request, transcript, transcript_line,
    ModelStatusReportPayloadView, StatusReportStage,
};
use crate::text;

verus! {

broadcast use vstd::seq::group_seq_axioms;

/// A report is due after every so many rounds, and not in between or before. A threshold of
/// none counts as one.
pub proof fn law_when_reports_are_due(rounds: u32, threshold: u32)
    ensures
        threshold > 0 ==> (periodic_report_due(rounds, threshold) <==> rounds > 0 && rounds as int
            % threshold as int == 0),
        threshold == 0 ==> (periodic_report_due(rounds, threshold) <==> rounds > 0),
{
    if threshold > 0 && rounds > 0 && rounds < threshold {
        vstd::arithmetic::div_mod::lemma_small_mod(rounds as nat, threshold as nat);
    }
}

/// What a report says that is made without the model: that a turn goes on or is over, the share
/// of the rounds that are done of those that are expected, cut off at both ends, how many
/// rounds and calls there were, and the confidence that there was before.
pub proof fn law_plain_report(
    rounds: u32,
    threshold: u32,
    calls: nat,
    prior: Option<u8>,
)
    ensures
        ({
            let running = plain_report(
                rounds,
                threshold,
                calls,
                StatusReportStage::ReviewingResults,
                prior,
            );
            let over = plain_report(rounds, threshold, calls, StatusReportStage::Completed, prior);
            let half = if threshold >= 4 {
                threshold as int / 2
            } else {
                2
            };
            let p = running.progress_percent as int;
            &&& running.active && !over.active
            &&& over.progress_percent == 100
            &&& 10 <= p <= 95
            &&& rounds <= 10_000_000 && threshold <= 10_000_000 && 10 < p < 95 ==> p * (rounds
                + half) <= 100 * rounds < (p + 1) * (rounds + half)
            &&& rounds <= 10_000_000 && threshold <= 10_000_000 && p == 95 ==> 95 * (rounds + half)
                <= 100 * rounds
            &&& rounds <= 10_000_000 && threshold <= 10_000_000 && p == 10 ==> 100 * rounds < 11 * (
            rounds + half)
            &&& prior matches Some(before) ==> 1 <= before <= 95 ==> running.confidence_percent
                == before
            &&& prior matches Some(before) ==> 1 <= before <= 100 ==> over.confidence_percent
                == before
            &&& 1 <= running.confidence_percent <= 95
            &&& 1 <= over.confidence_percent <= 100
            &&& running.tool_rounds_observed == rounds && over.tool_rounds_observed == rounds
            &&& part_of(text::digits(rounds as nat), running.completed_summary)
            &&& part_of(text::digits(rounds as nat), over.completed_summary)
            &&& part_of(call_count_text(calls), running.completed_summary)
        }),
{
    let running = plain_report(
        rounds,
        threshold,
        calls,
        StatusReportStage::ReviewingResults,
        prior,
    );
    let over = plain_report(rounds, threshold, calls, StatusReportStage::Completed, prior);
    let number = text::digits(rounds as nat);
    let a = "Completed "@;
    let b = " tool rounds so far; the latest round finished "@;
    let count = call_count_text(calls);
    assert(running.completed_summary =~= a + number + (b + count + "."@));
    lemma_is_between(running.completed_summary, a, number, b + count + "."@);
    assert(running.completed_summary =~= (a + number + b) + count + "."@);
    lemma_is_between(running.completed_summary, a + number + b, count, "."@);
    let c = " tool rounds and finished the response for this turn."@;
    lemma_is_between(over.completed_summary, a, number, c);
    if rounds <= 10_000_000 && threshold <= 10_000_000 {
        let half = if threshold >= 4 {
            threshold as int / 2
        } else {
            2
        };
        lemma_share(rounds as int, half);
        let q = (100 * (2 * rounds)) / (2 * (rounds + half));
        assert(crate::status_report::progress(
            rounds,
            threshold,
            StatusReportStage::ReviewingResults,
        ) == crate::status_report::bounded(q, 10, 95));
        assert(q >= 95 ==> 95 * (rounds + half) <= q * (rounds + half)) by (nonlinear_arith)
            requires
                rounds + half >= 0,
        ;
        assert(q <= 10 ==> (q + 1) * (rounds + half) <= 11 * (rounds + half)) by (nonlinear_arith)
            requires
                rounds + half >= 0,
        ;
    }
}

proof fn lemma_share(rounds: int, half: int)
    requires
        0 <= rounds,
        half > 0,
    ensures
        ({
            let q = (100 * (2 * rounds)) / (2 * (rounds + half));
            q * (rounds + half) <= 100 * rounds < (q + 1) * (rounds + half)
        }),
{
    let x = 100 * (2 * rounds);
    let y = 2 * (rounds + half);
    let q = x / y;
    vstd::arithmetic::div_mod::lemma_fundamental_div_mod(x, y);
    let r = x % y;
    assert(0 <= r < y) by {
        vstd::arithmetic::div_mod::lemma_mod_bound(x, y);
    }
    assert(x == y * q + r);
    assert(y * q == 2 * (q * (rounds + half))) by (nonlinear_arith)
        requires
            y == 2 * (rounds + half),
    ;
    assert((q + 1) * (rounds + half) == q * (rounds + half) + (rounds + half))
        by (nonlinear_arith);
}

/// Numbers of calls are told by their number.
pub proof fn law_number_of_calls(calls: nat)
    ensures
        calls != 1 ==> begins_with(call_count_text(calls), text::digits(calls)),
        begins_with(call_count_text(1), text::digits(1)),
        call_count_text(1).last() == 'l',
        calls != 1 ==> call_count_text(calls).last() == 's',
{
    reveal_strlit("1 tool call");
    reveal_strlit(" tool calls");
    let told = call_count_text(calls);
    if calls != 1 {
        assert(told.take(text::digits(calls).len() as int) =~= text::digits(calls));
    }
    assert(text::digits(1) =~= seq!['1']);
    assert(call_count_text(1).take(1) =~= seq!['1']);
}

/// What a report says that the model made: what the model said, word for word, with its
/// percentages cut off at both ends. A turn that is over is all done.
pub proof fn law_report_of_the_model(
    payload: ModelStatusReportPayloadView,
    stage: StatusReportStage,
    rounds: u32,
)
    ensures
        ({
            let report = model_report(payload, stage, rounds);
            &&& report.active == (stage == StatusReportStage::ReviewingResults)
            &&& stage == StatusReportStage::Completed ==> report.progress_percent == 100
            &&& stage == StatusReportStage::ReviewingResults ==> 1 <= report.progress_percent <= 95
            &&& stage == StatusReportStage::ReviewingResults && 1 <= payload.progress_percent <= 95
                ==> report.progress_percent == payload.progress_percent
            &&& stage == StatusReportStage::ReviewingResults && payload.progress_percent > 95
                ==> report.progress_percent == 95
            &&& 1 <= report.confidence_percent <= 100
            &&& 1 <= payload.confidence_percent <= 100 ==> report.confidence_percent
                == payload.confidence_percent
            &&& payload.confidence_percent > 100 ==> report.confidence_percent == 100
            &&& text::word_list(report.completed_summary) == text::word_list(
                payload.completed_summary,
            )
            &&& text::word_list(report.remaining_summary) == text::word_list(
                payload.remaining_summary,
            )
            &&& report.tool_rounds_observed == rounds
        }),
{
    lemma_words_stay(payload.completed_summary);
    lemma_words_stay(payload.remaining_summary);
}

proof fn lemma_words_stay(s: Seq<char>)
    ensures
        text::word_list(text::joined(text::word_list(s), " "@)) == text::word_list(s),
{
    let words = text::word_list(s);
    assert forall|i: int| 0 <= i < words.len() implies (#[trigger] words[i]).len() > 0
        && crate::laws::texts::unbroken(words[i]) by {
        crate::laws::texts::law_words_are_unbroken(s, i);
    }
    crate::laws::texts::law_words_come_back(words);
}

/// The request of a turn is the first thing the user said in it that is not blank.
pub proof fn law_request_of_a_turn(messages: Seq<MessageView>, i: int, said: Seq<char>)
    requires
        0 <= i <= messages.len(),
        forall|j: int|
            0 <= j < i ==> !((#[trigger] messages[j]).role == Role::User && (
            messages[j].content matches MessageContentView::Text(content) && text::trimmed(
                content,
            ).len() > 0)),
    ensures
        i == messages.len() ==> first_request(messages) is None,
        i < messages.len() && messages[i] == (MessageView {
            role: Role::User,
            content: MessageContentView::Text(said),
        }) && text::trimmed(said).len() > 0 ==> first_request(messages) == Some(
            text::trimmed(said),
        ),
    decreases i,
{
    if i > 0 {
        let rest = messages.drop_first();
        assert(!(messages[0].role == Role::User && (
        messages[0].content matches MessageContentView::Text(content) && text::trimmed(
            content,
        ).len() > 0)));
        assert forall|j: int| 0 <= j < i - 1 implies !((#[trigger] rest[j]).role == Role::User && (
        rest[j].content matches MessageContentView::Text(content) && text::trimmed(content).len()
            > 0)) by {
            assert(rest[j] == messages[j + 1]);
        }
        if i < messages.len() {
            assert(rest[i - 1] == messages[i]);
        }
        law_request_of_a_turn(rest, i - 1, said);
    }
}

/// The turn that is under way is what followed the last message of the user, with that message.
pub proof fn law_turn_under_way(before: Seq<MessageView>, turn: Seq<MessageView>)
    requires
        turn.len() > 0,
        turn[0].role == Role::User,
        forall|i: int| 0 < i < turn.len() ==> (#[trigger] turn[i]).role != Role::User,
    ensures
        current_turn(before + turn) == turn,
{
    lemma_last_user(before, turn);
    assert((before + turn).skip(before.len() as int) =~= turn);
}

proof fn lemma_last_user(before: Seq<MessageView>, turn: Seq<MessageView>)
    requires
        turn.len() > 0,
        turn[0].role == Role::User,
        forall|i: int| 0 < i < turn.len() ==> (#[trigger] turn[i]).role != Role::User,
    ensures
        crate::message::last_user(before + turn) == Some(before.len() as int),
    decreases turn.len(),
{
    let all = before + turn;
    if turn.len() == 1 {
        assert(all.last() == turn[0]);
    } else {
        let front = turn.drop_last();
        assert(all.last() == turn[turn.len() - 1]);
        assert(all.drop_last() =~= before + front);
        assert(front[0] == turn[0]);
        assert forall|i: int| 0 < i < front.len() implies (#[trigger] front[i]).role
            != Role::User by {
            assert(front[i] == turn[i]);
        }
        lemma_last_user(before, front);
    }
}

/// What another model would have to know of a message, as far as it is short.
pub open spec fn tells(message: MessageView, what: Seq<char>) -> bool {
    match message.content {
        MessageContentView::Text(content) => what == text::trimmed(content) && what.len() <= 400,
        MessageContentView::ToolUse { text, tool_calls } => {
            ||| text matches Some(said) && what == text::trimmed(said) && what.len() <= 240
            ||| exists|k: int|
                0 <= k < tool_calls.len() && what == (#[trigger] tool_calls[k]).tool_name
        },
        MessageContentView::ToolResult { tool_use_id, output, .. } => what == tool_use_id || (what
            == text::trimmed(output) && what.len() <= 400),
    }
}

proof fn lemma_line_tells(message: MessageView, what: Seq<char>)
    requires
        tells(message, what),
    ensures
        part_of(what, transcript_line(message)),
{
    let none = Seq::<char>::empty();
    let line = transcript_line(message);
    match message.content {
        MessageContentView::Text(content) => {
            let a = crate::message::role_text(message.role) + ": "@;
            assert(line =~= a + what + none);
            lemma_is_between(line, a, what, none);
        },
        MessageContentView::ToolUse { text: said, tool_calls } => {
            let names = crate::status_report::tool_names(tool_calls);
            let list = text::joined(names, ", "@);
            let a = "assistant: "@;
            let prefix = match said {
                Some(content) => if crate::status_report::truncated(content, 240).len() > 0 {
                    crate::status_report::truncated(content, 240)
                } else {
                    "assistant requested tools"@
                },
                None => "assistant requested tools"@,
            };
            let b = " [tool round with "@ + call_count_text(tool_calls.len()) + ": "@;
            if exists|k: int|
                0 <= k < tool_calls.len() && what == (#[trigger] tool_calls[k]).tool_name {
                let k = choose|k: int|
                    0 <= k < tool_calls.len() && what == (#[trigger] tool_calls[k]).tool_name;
                assert(names[k] == what);
                lemma_part_of_joined(names, ", "@, k);
                assert(line =~= (a + prefix + b) + list + "]"@);
                lemma_is_between(line, a + prefix + b, list, "]"@);
                lemma_part_of_part(what, list, line);
            } else if what.len() == 0 {
                assert(line.subrange(0, 0) =~= what);
                assert(crate::laws::parts::stands_at(what, line, 0));
            } else {
                assert(line =~= a + prefix + (b + list + "]"@));
                lemma_is_between(line, a, prefix, b + list + "]"@);
            }
        },
        MessageContentView::ToolResult { tool_use_id, output, is_error } => {
            let a = "tool: "@ + (if is_error {
                "error"@
            } else {
                "ok"@
            }) + " result for "@;
            let shown = crate::status_report::truncated(output, 400);
            assert(line =~= a + tool_use_id + (": "@ + shown));
            lemma_is_between(line, a, tool_use_id, ": "@ + shown);
            assert(line =~= (a + tool_use_id + ": "@) + shown + none);
            lemma_is_between(line, a + tool_use_id + ": "@, shown, none);
        },
    }
}

/// The transcript of a turn says what was said in it, as far as it is short, which tools were
/// called, and what they gave.
pub proof fn law_transcript_of_a_turn(
    before: Seq<MessageView>,
    turn: Seq<MessageView>,
    i: int,
    what: Seq<char>,
)
    requires
        turn.len() > 0,
        turn[0].role == Role::User,
        forall|j: int| 0 < j < turn.len() ==> (#[trigger] turn[j]).role != Role::User,
        0 <= i < turn.len(),
        tells(turn[i], what),
    ensures
        part_of(what, transcript(before + turn)),
        turn[i].content matches MessageContentView::ToolResult { is_error, .. } ==> (is_error
            <==> begins_with(transcript_line(turn[i]), "tool: error"@)),
{
    law_turn_under_way(before, turn);
    let lines = turn.map_values(|m: MessageView| transcript_line(m));
    assert(lines[i] == transcript_line(turn[i]));
    lemma_part_of_joined(lines, "\n"@, i);
    lemma_line_tells(turn[i], what);
    lemma_part_of_part(what, transcript_line(turn[i]), transcript(before + turn));
    if let MessageContentView::ToolResult { is_error, tool_use_id, output } = turn[i].content {
        reveal_strlit("tool: ");
        reveal_strlit("error");
        reveal_strlit("ok");
        reveal_strlit(" result for ");
        reveal_strlit("tool: error");
        let line = transcript_line(turn[i]);
        if is_error {
            assert(line.take(11) =~= "tool: error"@);
        } else {
            assert(line[6] == 'o');
            if begins_with(line, "tool: error"@) {
                assert(line.take(11)[6] == 'e');
            }
        }
    }
}

/// The model that makes a report gets the request of the user, the numbers, and the transcript
/// of the turn.
pub proof fn law_report_is_asked_for(
    history: Seq<MessageView>,
    rounds: u32,
    threshold: u32,
    calls: nat,
    stage: StatusReportStage,
)
    ensures
        ({
            let request = report_request(history, rounds, threshold, calls, stage);
            &&& first_request(current_turn(history)) matches Some(asked) ==> part_of(asked, request)
            &&& part_of(text::digits(rounds as nat), request)
            &&& part_of(text::digits(calls), request)
            &&& threshold > 0 ==> part_of(text::digits(threshold as nat), request)
            &&& ends_with(request, transcript(history))
        }),
{
    let request = report_request(history, rounds, threshold, calls, stage);
    let shown = transcript(history);
    assert(request.skip(request.len() - shown.len()) =~= shown);
    let a =
        "Generate a concise status report for this in-progress coding turn.\nLatest user request:\n"@;
    let asked = match first_request(current_turn(history)) {
        Some(request) => request,
        None => "No explicit user request captured."@,
    };
    let b = "\n\nTool rounds observed in this turn: "@;
    let r = text::digits(rounds as nat);
    let c = "\nReporting threshold: "@;
    let t = text::digits(crate::status_report::effective_threshold(threshold) as nat);
    let d = "\nCurrent round tool calls: "@;
    let n = text::digits(calls);
    let f1 = a + asked;
    let f2 = f1 + b + r;
    let f3 = f2 + c + t;
    let f4 = f3 + d + n;
    assert(request =~= f1 + request.skip(f1.len() as int));
    assert(request =~= f2 + request.skip(f2.len() as int));
    assert(request =~= f3 + request.skip(f3.len() as int));
    assert(request =~= f4 + request.skip(f4.len() as int));
    lemma_is_between(request, a, asked, request.skip(f1.len() as int));
    lemma_is_between(request, f1 + b, r, request.skip(f2.len() as int));
    lemma_is_between(request, f2 + c, t, request.skip(f3.len() as int));
    lemma_is_between(request, f3 + d, n, request.skip(f4.len() as int));
}

proof fn lemma_last_position(s: Seq<char>, c: char)
    ensures
        -1 <= last_position(s, c) < s.len(),
        last_position(s, c) >= 0 ==> s[last_position(s, c)] == c,
        forall|i: int| last_position(s, c) < i < s.len() ==> (#[trigger] s[i]) != c,
    decreases s.len(),
{
    if s.len() > 0 && s.last() != c {
        let front = s.drop_last();
        lemma_last_position(front, c);
        assert forall|i: int| last_position(s, c) < i < s.len() implies (
        #[trigger] s[i]) != c by {
            if i < front.len() {
                assert(front[i] == s[i]);
            }
        }
    }
}

/// What may hold a report: the whole answer, trimmed, and else what stands between its first
/// opening and its last closing bracket, with these. A blank answer holds none.
pub proof fn law_where_a_report_may_be(raw: Seq<char>, front: Seq<char>, inner: Seq<char>, back: Seq<char>)
    ensures
        text::trimmed(raw).len() == 0 ==> payload_texts(raw).len() == 0,
        text::trimmed(raw).len() > 0 ==> payload_texts(raw).len() > 0 && payload_texts(raw)[0]
            == text::trimmed(raw),
        text::trimmed(raw) == front + (seq!['{'] + inner + seq!['}']) + back && (forall|i: int|
            0 <= i < front.len() ==> (#[trigger] front[i]) != '{') && (forall|i: int|
            0 <= i < back.len() ==> (#[trigger] back[i]) != '}') ==> payload_texts(raw) == seq![
            text::trimmed(raw),
            seq!['{'] + inner + seq!['}'],
        ],
{
    let t = text::trimmed(raw);
    let middle = seq!['{'] + inner + seq!['}'];
    if t == front + middle + back && (forall|i: int|
        0 <= i < front.len() ==> (#[trigger] front[i]) != '{') && (forall|i: int|
        0 <= i < back.len() ==> (#[trigger] back[i]) != '}') {
        text::lemma_until(t, '{');
        lemma_last_position(t, '}');
        let start = text::until(t, '{') as int;
        let end = last_position(t, '}');
        let m = front.len() as int;
        let e = front.len() + middle.len() - 1;
        assert(t[m] == '{');
        if start < m {
            assert(t[start] == front[start]);
        }
        assert(t[e] == middle[middle.len() - 1]);
        if end > e {
            assert(t[end] == back[end - e - 1]);
        }
        assert(start == m && end == e);
        assert(t.subrange(start, end + 1) =~= middle);
    }
}

/// A line of the transcript says who spoke.
pub proof fn law_lines_say_who_spoke(content: Seq<char>, role: Role)
    ensures
        ({
            let line = transcript_line(
                MessageView { role, content: MessageContentView::Text(content) },
            );
            &&& role == Role::User ==> begins_with(line, "user"@)
            &&& role == Role::Assistant ==> begins_with(line, "assistant"@)
            &&& role == Role::System ==> begins_with(line, "system"@)
            &&& role == Role::Tool ==> begins_with(line, "tool"@)
        }),
{
    let line = transcript_line(MessageView { role, content: MessageContentView::Text(content) });
    let who = crate::message::role_text(role);
    assert(line.take(who.len() as int) =~= who);
}

/// A long text is cut off, and shows that it was.
pub proof fn law_long_texts_are_cut_off(content: Seq<char>, max: nat)
    requires
        max > 0,
    ensures
        ({
            let shown = crate::status_report::truncated(content, max);
            let whole = text::trimmed(content);
            &&& shown.len() <= max
            &&& whole.len() <= max ==> shown == whole
            &&& whole.len() > max ==> shown.len() == max && shown.last() == '\u{2026}'
                && shown.drop_last() == whole.take(max - 1)
        }),
{
    let whole = text::trimmed(content);
    if whole.len() > max {
        let kept = whole.take(max - 1);
        assert(kept.push('\u{2026}').drop_last() =~= kept);
    }
}

/// The transcript of a turn is in the order of its messages.
pub proof fn law_transcript_of_a_turn_is_in_order(
    before: Seq<MessageView>,
    turn: Seq<MessageView>,
    message: MessageView,
)
    requires
        turn.len() > 0,
        turn[0].role == Role::User,
        forall|j: int| 0 < j < turn.len() ==> (#[trigger] turn[j]).role != Role::User,
        message.role != Role::User,
    ensures
        transcript((before + turn).push(message)) == transcript(before + turn) + "\n"@
            + transcript_line(message),
{
    let longer = turn.push(message);
    assert forall|j: int| 0 < j < longer.len() implies (#[trigger] longer[j]).role
        != Role::User by {
        if j < turn.len() {
            assert(longer[j] == turn[j]);
        }
    }
    assert(longer[0] == turn[0]);
    law_turn_under_way(before, turn);
    law_turn_under_way(before, longer);
    assert((before + turn).push(message) =~= before + longer);
    let lines = turn.map_values(|m: MessageView| transcript_line(m));
    let more = longer.map_values(|m: MessageView| transcript_line(m));
    assert(more.drop_last() =~= lines);
    assert(more.last() == transcript_line(message));
}

/// Where there was no confidence before, that of a turn that is over is larger than that of one
/// that goes on. A percentage of none counts as the smallest.
pub proof fn law_first_confidence(
    rounds: u32,
    threshold: u32,
    calls: nat,
    payload: ModelStatusReportPayloadView,
)
    ensures
        plain_report(
            rounds,
            threshold,
            calls,
            StatusReportStage::ReviewingResults,
            None,
        ).confidence_percent == 60,
        plain_report(
            rounds,
            threshold,
            calls,
            StatusReportStage::Completed,
            None,
        ).confidence_percent == 85,
        payload.progress_percent == 0 ==> model_report(
            payload,
            StatusReportStage::ReviewingResults,
            rounds,
        ).progress_percent == 1,
        payload.confidence_percent == 0 ==> model_report(
            payload,
            StatusReportStage::ReviewingResults,
            rounds,
        ).confidence_percent == 1,
{
}

} // verus!
