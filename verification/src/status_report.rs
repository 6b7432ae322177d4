//! Status reports on a turn with many tool rounds.

use vstd::prelude::*;
use vstd::string::*;

use crate::message::{
    latest_user_message_index, last_user, role_label, role_text, Message, MessageContent,
    MessageContentView, MessageView, Role, ToolUseRequest, ToolUseRequestView,
};
use crate::text;

verus! {

broadcast use vstd::seq::group_seq_axioms;

/// How far a turn has come.
#[derive(Debug)]
pub struct SessionStatusReport {
    /// Whether the turn is still running.
    pub active: bool,
    pub progress_percent: u8,
    pub confidence_percent: u8,
    pub completed_summary: String,
    pub remaining_summary: String,
    pub tool_rounds_observed: u32,
}

/// The model of [`SessionStatusReport`].
#[verifier::ext_equal]
pub struct SessionStatusReportView {
    pub active: bool,
    pub progress_percent: u8,
    pub confidence_percent: u8,
    pub completed_summary: Seq<char>,
    pub remaining_summary: Seq<char>,
    pub tool_rounds_observed: u32,
}

impl DeepView for SessionStatusReport {
    type V = SessionStatusReportView;

    open spec fn deep_view(&self) -> SessionStatusReportView {
        SessionStatusReportView {
            active: self.active,
            progress_percent: self.progress_percent,
            confidence_percent: self.confidence_percent,
            completed_summary: self.completed_summary.deep_view(),
            remaining_summary: self.remaining_summary.deep_view(),
            tool_rounds_observed: self.tool_rounds_observed,
        }
    }
}

impl Clone for SessionStatusReport {
    fn clone(&self) -> (r: Self)
        ensures
            r.deep_view() == self.deep_view(),
    {
        SessionStatusReport {
            active: self.active,
            progress_percent: self.progress_percent,
            confidence_percent: self.confidence_percent,
            completed_summary: self.completed_summary.clone(),
            remaining_summary: self.remaining_summary.clone(),
            tool_rounds_observed: self.tool_rounds_observed,
        }
    }
}

/// The point of a turn at which a report is made.
#[derive(Clone, Copy, Debug, PartialEq, Eq, Structural)]
pub enum StatusReportStage {
    ReviewingResults,
    Completed,
}

impl DeepView for StatusReportStage {
    type V = StatusReportStage;

    open spec fn deep_view(&self) -> StatusReportStage {
        *self
    }
}

/// What the model is asked to return as a report.
#[derive(Debug)]
pub struct ModelStatusReportPayload {
    pub progress_percent: u8,
    pub confidence_percent: u8,
    pub completed_summary: String,
    pub remaining_summary: String,
}

/// The model of [`ModelStatusReportPayload`].
#[verifier::ext_equal]
pub struct ModelStatusReportPayloadView {
    pub progress_percent: u8,
    pub confidence_percent: u8,
    pub completed_summary: Seq<char>,
    pub remaining_summary: Seq<char>,
}

impl DeepView for ModelStatusReportPayload {
    type V = ModelStatusReportPayloadView;

    open spec fn deep_view(&self) -> ModelStatusReportPayloadView {
        ModelStatusReportPayloadView {
            progress_percent: self.progress_percent,
            confidence_percent: self.confidence_percent,
            completed_summary: self.completed_summary.deep_view(),
            remaining_summary: self.remaining_summary.deep_view(),
        }
    }
}

/// The larger of two numbers.
pub open spec fn larger(a: int, b: int) -> int {
    if a >= b {
        a
    } else {
        b
    }
}

/// The number in `low..=high` that is nearest to `n`.
pub open spec fn bounded(n: int, low: int, high: int) -> int {
    if n < low {
        low
    } else if n > high {
        high
    } else {
        n
    }
}

/// A threshold is at least one round.
pub open spec fn effective_threshold(threshold: u32) -> u32 {
    if threshold == 0 {
        1
    } else {
        threshold
    }
}

/// Whether a round count is a positive multiple of the threshold.
pub open spec fn periodic_report_due(rounds: u32, threshold: u32) -> bool {
    rounds >= effective_threshold(threshold) && rounds as int % effective_threshold(threshold) as int
        == 0
}

/// A sum or product that stops at the largest `u32`.
pub open spec fn saturated(n: int) -> int {
    if n > u32::MAX {
        u32::MAX as int
    } else {
        n
    }
}

/// The percentage of a turn that is done: the rounds seen, out of those rounds and
/// half a threshold, but at least two, more. Between 10 and 95 while it runs.
pub open spec fn progress(rounds: u32, threshold: u32, stage: StatusReportStage) -> int {
    match stage {
        StatusReportStage::Completed => 100,
        StatusReportStage::ReviewingResults => {
            let ahead = larger(effective_threshold(threshold) as int / 2, 2);
            let total = saturated(2 * saturated(rounds + ahead));
            let done = saturated(2 * rounds);
            bounded(saturated(100 * done) / total, 10, 95)
        },
    }
}

/// The confidence of a report that was not made by the model.
pub open spec fn confidence(stage: StatusReportStage, prior: Option<u8>) -> int {
    match stage {
        StatusReportStage::Completed => bounded(
            match prior {
                Some(p) => p as int,
                None => 85,
            },
            1,
            100,
        ),
        StatusReportStage::ReviewingResults => bounded(
            match prior {
                Some(p) => p as int,
                None => 60,
            },
            1,
            95,
        ),
    }
}

/// A number of tool calls in words.
pub open spec fn call_count_text(count: nat) -> Seq<char> {
    if count == 1 {
        "1 tool call"@
    } else {
        text::digits(count) + " tool calls"@
    }
}

/// The report that is made without the model.
pub open spec fn plain_report(
    rounds: u32,
    threshold: u32,
    calls: nat,
    stage: StatusReportStage,
    prior: Option<u8>,
) -> SessionStatusReportView {
    SessionStatusReportView {
        active: stage != StatusReportStage::Completed,
        progress_percent: progress(rounds, threshold, stage) as u8,
        confidence_percent: confidence(stage, prior) as u8,
        completed_summary: match stage {
            StatusReportStage::ReviewingResults => "Completed "@ + text::digits(rounds as nat)
                + " tool rounds so far; the latest round finished "@ + call_count_text(calls)
                + "."@,
            StatusReportStage::Completed => "Completed "@ + text::digits(rounds as nat)
                + " tool rounds and finished the response for this turn."@,
        },
        remaining_summary: match stage {
            StatusReportStage::ReviewingResults =>
                "Review the latest tool results, decide whether another tool round is needed, and then produce the final response."@,
            StatusReportStage::Completed =>
                "Nothing remains in this turn; wait for the next user request."@,
        },
        tool_rounds_observed: rounds,
    }
}

/// The report that is made from what the model returned.
pub open spec fn model_report(
    payload: ModelStatusReportPayloadView,
    stage: StatusReportStage,
    rounds: u32,
) -> SessionStatusReportView {
    SessionStatusReportView {
        active: stage != StatusReportStage::Completed,
        progress_percent: match stage {
            StatusReportStage::Completed => 100,
            StatusReportStage::ReviewingResults => bounded(
                payload.progress_percent as int,
                1,
                95,
            ) as u8,
        },
        confidence_percent: bounded(payload.confidence_percent as int, 1, 100) as u8,
        completed_summary: text::joined(text::word_list(payload.completed_summary), " "@),
        remaining_summary: text::joined(text::word_list(payload.remaining_summary), " "@),
        tool_rounds_observed: rounds,
    }
}

/// The progress of a running turn stays between 10 and 95; that of a finished one is 100.
pub proof fn law_progress_bounds(rounds: u32, threshold: u32)
    ensures
        10 <= progress(rounds, threshold, StatusReportStage::ReviewingResults) <= 95,
        progress(rounds, threshold, StatusReportStage::Completed) == 100,
{
}

impl SessionStatusReport {
    /// A report with the given parts.
    pub fn new(
        active: bool,
        progress_percent: u8,
        confidence_percent: u8,
        completed_summary: String,
        remaining_summary: String,
        tool_rounds_observed: u32,
    ) -> (r: SessionStatusReport)
        ensures
            r.deep_view() == (SessionStatusReportView {
                active,
                progress_percent,
                confidence_percent,
                completed_summary: completed_summary@,
                remaining_summary: remaining_summary@,
                tool_rounds_observed,
            }),
    {
        SessionStatusReport {
            active,
            progress_percent,
            confidence_percent,
            completed_summary,
            remaining_summary,
            tool_rounds_observed,
        }
    }

    /// Whether two reports say the same.
    pub fn same(&self, other: &SessionStatusReport) -> (r: bool)
        ensures
            r == (self.deep_view() == other.deep_view()),
    {
        self.active == other.active && self.progress_percent == other.progress_percent
            && self.confidence_percent == other.confidence_percent && text::same(
            self.completed_summary.as_str(),
            other.completed_summary.as_str(),
        ) && text::same(self.remaining_summary.as_str(), other.remaining_summary.as_str())
            && self.tool_rounds_observed == other.tool_rounds_observed
    }
}

/// Whether two optional reports say the same.
pub fn same_report(a: &Option<SessionStatusReport>, b: &Option<SessionStatusReport>) -> (r: bool)
    ensures
        r == (a.deep_view() == b.deep_view()),
{
    match (a, b) {
        (Some(a), Some(b)) => a.same(b),
        (None, None) => true,
        _ => false,
    }
}

/// A number of tool calls in words.
pub fn tool_call_count_label(count: usize) -> (r: String)
    ensures
        r@ == call_count_text(count as nat),
{
    if count == 1 {
        "1 tool call".to_owned()
    } else {
        let mut r = text::decimal(count as u64);
        r.append(" tool calls");
        r
    }
}

/// Whether a report is due after a tool round.
pub fn should_emit_periodic_status_report(tool_rounds_observed: u32, threshold: u32) -> (r: bool)
    ensures
        r == periodic_report_due(tool_rounds_observed, threshold),
{
    let threshold: u32 = if threshold == 0 {
        1
    } else {
        threshold
    };
    tool_rounds_observed >= threshold && tool_rounds_observed % threshold == 0
}

/// Whether a report is due when the turn is done.
pub fn should_emit_completed_status_report(
    tool_rounds_observed: u32,
    threshold: u32,
    prior_report_exists: bool,
) -> (r: bool)
    ensures
        r == (prior_report_exists || periodic_report_due(tool_rounds_observed, threshold)),
{
    prior_report_exists || should_emit_periodic_status_report(tool_rounds_observed, threshold)
}

/// A product that stops at the largest `u32`.
fn saturating_product(a: u32, b: u32) -> (r: u32)
    ensures
        r == saturated(a * b),
{
    match a.checked_mul(b) {
        Some(product) => product,
        None => u32::MAX,
    }
}

/// The percentage of a turn that is done.
pub fn status_report_progress(
    tool_rounds_observed: u32,
    threshold: u32,
    stage: StatusReportStage,
) -> (r: u8)
    ensures
        r == progress(tool_rounds_observed, threshold, stage),
{
    if stage == StatusReportStage::Completed {
        return 100;
    }
    let threshold: u32 = if threshold == 0 {
        1
    } else {
        threshold
    };
    let half: u32 = threshold / 2;
    let ahead: u32 = if half < 2 {
        2
    } else {
        half
    };
    let estimated_total_rounds: u32 = tool_rounds_observed.saturating_add(ahead);
    let total_units: u32 = saturating_product(estimated_total_rounds, 2);
    let completed_units: u32 = saturating_product(tool_rounds_observed, 2);
    let scaled: u32 = saturating_product(completed_units, 100);
    assert(total_units == saturated(2 * saturated(tool_rounds_observed + ahead)));
    assert(scaled == saturated(100 * saturated(2 * tool_rounds_observed)));
    let raw_percent: u32 = scaled / total_units;
    if raw_percent < 10 {
        10
    } else if raw_percent > 95 {
        95
    } else {
        raw_percent as u8
    }
}

/// The confidence of a report that was not made by the model.
pub fn status_report_confidence(stage: StatusReportStage, prior_confidence: Option<u8>) -> (r: u8)
    ensures
        r == confidence(stage, prior_confidence),
{
    let (value, high): (u8, u8) = match stage {
        StatusReportStage::Completed => (prior_confidence.unwrap_or(85), 100),
        StatusReportStage::ReviewingResults => (prior_confidence.unwrap_or(60), 95),
    };
    if value < 1 {
        1
    } else if value > high {
        high
    } else {
        value
    }
}

/// The report that is made without the model.
pub fn build_status_report(
    tool_rounds_observed: u32,
    threshold: u32,
    current_round_tool_calls: usize,
    stage: StatusReportStage,
    prior_confidence: Option<u8>,
) -> (r: SessionStatusReport)
    ensures
        r.deep_view() == plain_report(
            tool_rounds_observed,
            threshold,
            current_round_tool_calls as nat,
            stage,
            prior_confidence,
        ),
{
    let mut completed_summary = "Completed ".to_owned();
    let rounds = text::decimal(tool_rounds_observed as u64);
    completed_summary.append(rounds.as_str());
    let remaining_summary = match stage {
        StatusReportStage::ReviewingResults => {
            let calls = tool_call_count_label(current_round_tool_calls);
            completed_summary.append(" tool rounds so far; the latest round finished ");
            completed_summary.append(calls.as_str());
            completed_summary.append(".");
            "Review the latest tool results, decide whether another tool round is needed, and then produce the final response.".to_owned()
        },
        StatusReportStage::Completed => {
            completed_summary.append(" tool rounds and finished the response for this turn.");
            "Nothing remains in this turn; wait for the next user request.".to_owned()
        },
    };
    SessionStatusReport::new(
        stage != StatusReportStage::Completed,
        status_report_progress(tool_rounds_observed, threshold, stage),
        status_report_confidence(stage, prior_confidence),
        completed_summary,
        remaining_summary,
        tool_rounds_observed,
    )
}

/// The report that is made from what the model returned.
pub fn status_report_from_payload(
    payload: &ModelStatusReportPayload,
    stage: StatusReportStage,
    tool_rounds_observed: u32,
) -> (r: SessionStatusReport)
    ensures
        r.deep_view() == model_report(payload.deep_view(), stage, tool_rounds_observed),
{
    let progress_percent: u8 = match stage {
        StatusReportStage::Completed => 100,
        StatusReportStage::ReviewingResults => {
            if payload.progress_percent < 1 {
                1
            } else if payload.progress_percent > 95 {
                95
            } else {
                payload.progress_percent
            }
        },
    };
    let confidence_percent: u8 = if payload.confidence_percent < 1 {
        1
    } else if payload.confidence_percent > 100 {
        100
    } else {
        payload.confidence_percent
    };
    let completed = text::words(payload.completed_summary.as_str());
    let remaining = text::words(payload.remaining_summary.as_str());
    SessionStatusReport::new(
        stage != StatusReportStage::Completed,
        progress_percent,
        confidence_percent,
        text::join(&completed, " "),
        text::join(&remaining, " "),
        tool_rounds_observed,
    )
}

/// The messages from the last user message on, or all of them.
pub open spec fn current_turn(history: Seq<MessageView>) -> Seq<MessageView> {
    match last_user(history) {
        Some(i) => history.skip(i),
        None => history,
    }
}

/// The text of the first user message that is text and not blank, trimmed.
pub open spec fn first_request(messages: Seq<MessageView>) -> Option<Seq<char>>
    decreases messages.len(),
{
    if messages.len() == 0 {
        None
    } else {
        match messages[0].content {
            MessageContentView::Text(content) => {
                if messages[0].role == Role::User && text::trimmed(content).len() > 0 {
                    Some(text::trimmed(content))
                } else {
                    first_request(messages.drop_first())
                }
            },
            _ => first_request(messages.drop_first()),
        }
    }
}

/// A text, trimmed, and cut off with an ellipsis where it is longer than `max`.
pub open spec fn truncated(content: Seq<char>, max: nat) -> Seq<char> {
    let t = text::trimmed(content);
    if t.len() <= max {
        t
    } else {
        t.take(larger(max - 1, 0)).push('\u{2026}')
    }
}

/// The names of the tools that are called.
pub open spec fn tool_names(calls: Seq<ToolUseRequestView>) -> Seq<Seq<char>> {
    calls.map_values(|c: ToolUseRequestView| c.tool_name)
}

/// One message of the transcript that the report is made from.
pub open spec fn transcript_line(message: MessageView) -> Seq<char> {
    match message.content {
        MessageContentView::Text(content) => role_text(message.role) + ": "@ + truncated(
            content,
            400,
        ),
        MessageContentView::ToolUse { text: said, tool_calls } => {
            let prefix = match said {
                Some(content) => if truncated(content, 240).len() > 0 {
                    truncated(content, 240)
                } else {
                    "assistant requested tools"@
                },
                None => "assistant requested tools"@,
            };
            "assistant: "@ + prefix + " [tool round with "@ + call_count_text(tool_calls.len())
                + ": "@ + text::joined(tool_names(tool_calls), ", "@) + "]"@
        },
        MessageContentView::ToolResult { tool_use_id, output, is_error } => "tool: "@ + (
        if is_error {
            "error"@
        } else {
            "ok"@
        }) + " result for "@ + tool_use_id + ": "@ + truncated(output, 400),
    }
}

/// The transcript of the current turn.
pub open spec fn transcript(history: Seq<MessageView>) -> Seq<char> {
    text::joined(current_turn(history).map_values(|m: MessageView| transcript_line(m)), "\n"@)
}

/// The instructions to the model that makes reports.
pub open spec fn report_instructions() -> Seq<char> {
    "You generate internal status reports for a coding-agent UI. Return JSON only with keys progress_percent, confidence_percent, completed_summary, and remaining_summary. completed_summary and remaining_summary must each be exactly one sentence. Evaluate progress_percent against the full amount of work required by the latest user request, not against tool counts, elapsed time, or transcript length. Set confidence_percent to your confidence that the agent can fully complete the latest user request from the current trajectory and evidence. Do not include markdown fences or extra commentary."@
}

/// The request for a report.
pub open spec fn report_request(
    history: Seq<MessageView>,
    rounds: u32,
    threshold: u32,
    calls: nat,
    stage: StatusReportStage,
) -> Seq<char> {
    "Generate a concise status report for this in-progress coding turn.\nLatest user request:\n"@
        + (match first_request(current_turn(history)) {
        Some(request) => request,
        None => "No explicit user request captured."@,
    }) + "\n\nTool rounds observed in this turn: "@ + text::digits(rounds as nat)
        + "\nReporting threshold: "@ + text::digits(effective_threshold(threshold) as nat)
        + "\nCurrent round tool calls: "@ + text::digits(calls)
        + "\nEstimate confidence_percent as your confidence that the agent can fully complete the latest user request from the current trajectory and evidence.\nDo not use tool rounds, tool calls, or transcript length as a proxy for progress.\nUse tool activity only as evidence for what is done and what still needs work.\n"@
        + (match stage {
        StatusReportStage::Completed => "The turn has completed. Set progress_percent to 100."@,
        StatusReportStage::ReviewingResults =>
            "The turn is still active after a tool round. Set progress_percent between 1 and 95."@,
    }) + "\n\nCurrent user-turn transcript:\n"@ + transcript(history)
}

/// The position of the last `c`, or -1.
pub open spec fn last_position(s: Seq<char>, c: char) -> int
    decreases s.len(),
{
    if s.len() == 0 {
        -1
    } else if s.last() == c {
        s.len() - 1
    } else {
        last_position(s.drop_last(), c)
    }
}

/// The texts that may hold the JSON of a report, in the order in which they are tried:
/// the whole reply, trimmed, and what stands from its first to its last curly bracket.
pub open spec fn payload_texts(raw: Seq<char>) -> Seq<Seq<char>> {
    let t = text::trimmed(raw);
    let start = text::until(t, '{') as int;
    let end = last_position(t, '}');
    if t.len() == 0 {
        Seq::empty()
    } else if start < end {
        seq![t, t.subrange(start, end + 1)]
    } else {
        seq![t]
    }
}

/// The messages of the current turn.
pub fn current_turn_messages(history: &Vec<Message>) -> (r: &[Message])
    ensures
        r.deep_view() == current_turn(history.deep_view()),
{
    match latest_user_message_index(history) {
        Some(i) => {
            let r = vstd::slice::slice_subrange(history.as_slice(), i, history.len());
            assert(r.deep_view() =~= history.deep_view().skip(i as int));
            r
        },
        None => {
            let r = history.as_slice();
            assert(r.deep_view() =~= history.deep_view());
            r
        },
    }
}

/// The text of the request that the current turn answers.
pub fn latest_user_request_text(history: &Vec<Message>) -> (r: Option<String>)
    ensures
        r.deep_view() == first_request(current_turn(history.deep_view())),
{
    let turn = current_turn_messages(history);
    let ghost all = turn.deep_view();
    let mut i: usize = 0;
    assert(all.skip(0) =~= all);
    while i < turn.len()
        invariant
            i <= turn@.len(),
            all == turn.deep_view(),
            all == current_turn(history.deep_view()),
            first_request(all) == first_request(all.skip(i as int)),
        decreases turn@.len() - i,
    {
        assert(all.skip(i as int).drop_first() =~= all.skip(i + 1));
        assert(all.skip(i as int)[0] == turn@[i as int].deep_view());
        if let MessageContent::Text(content) = &turn[i].content {
            let trimmed = text::trim(content.as_str());
            if turn[i].role == Role::User && !trimmed.as_str().is_empty() {
                return Some(trimmed);
            }
        }
        i = i + 1;
    }
    assert(all.skip(i as int) =~= Seq::empty());
    None
}

/// A text, trimmed, and cut off where it is too long.
pub fn truncate_status_report_text(content: &str, max_chars: usize) -> (r: String)
    ensures
        r@ == truncated(content@, max_chars as nat),
{
    let trimmed = text::trim(content);
    if trimmed.as_str().unicode_len() <= max_chars {
        return trimmed;
    }
    let kept: usize = if max_chars == 0 {
        0
    } else {
        max_chars - 1
    };
    let mut r = text::take_chars(trimmed.as_str(), kept);
    r.push('\u{2026}');
    r
}

/// One message of the transcript.
fn render_transcript_line(message: &Message) -> (r: String)
    ensures
        r@ == transcript_line(message.deep_view()),
{
    match &message.content {
        MessageContent::Text(content) => {
            let mut r = role_label(message.role).to_owned();
            r.append(": ");
            let shown = truncate_status_report_text(content.as_str(), 400);
            r.append(shown.as_str());
            r
        },
        MessageContent::ToolUse { text: said, tool_calls } => {
            let prefix = match said {
                Some(content) => {
                    let shown = truncate_status_report_text(content.as_str(), 240);
                    if !shown.as_str().is_empty() {
                        shown
                    } else {
                        "assistant requested tools".to_owned()
                    }
                },
                None => "assistant requested tools".to_owned(),
            };
            let mut r = "assistant: ".to_owned();
            r.append(prefix.as_str());
            r.append(" [tool round with ");
            let label = tool_call_count_label(tool_calls.len());
            r.append(label.as_str());
            r.append(": ");
            let names = called_tool_names(tool_calls);
            let names = text::join(&names, ", ");
            r.append(names.as_str());
            r.append("]");
            r
        },
        MessageContent::ToolResult { tool_use_id, output, is_error } => {
            let mut r = "tool: ".to_owned();
            if *is_error {
                r.append("error");
            } else {
                r.append("ok");
            }
            r.append(" result for ");
            r.append(tool_use_id.as_str());
            r.append(": ");
            let shown = truncate_status_report_text(output.as_str(), 400);
            r.append(shown.as_str());
            r
        },
    }
}

/// The names of the tools that are called.
fn called_tool_names(calls: &Vec<ToolUseRequest>) -> (r: Vec<String>)
    ensures
        r.deep_view() == tool_names(calls.deep_view()),
{
    let mut r: Vec<String> = Vec::new();
    let mut i: usize = 0;
    let ghost wanted = tool_names(calls.deep_view());
    while i < calls.len()
        invariant
            i <= calls@.len(),
            wanted == tool_names(calls.deep_view()),
            r.deep_view() == wanted.take(i as int),
        decreases calls@.len() - i,
    {
        let ghost before = r.deep_view();
        r.push(calls[i].tool_name.clone());
        assert(r.deep_view() =~= before.push(wanted[i as int]));
        assert(wanted.take(i + 1) =~= wanted.take(i as int).push(wanted[i as int]));
        i = i + 1;
    }
    assert(wanted.take(i as int) =~= wanted);
    r
}

/// The transcript of the current turn.
pub fn render_status_report_transcript(history: &Vec<Message>) -> (r: String)
    ensures
        r@ == transcript(history.deep_view()),
{
    let turn = current_turn_messages(history);
    let mut lines: Vec<String> = Vec::new();
    let mut i: usize = 0;
    let ghost wanted = turn.deep_view().map_values(|m: MessageView| transcript_line(m));
    while i < turn.len()
        invariant
            i <= turn@.len(),
            wanted == turn.deep_view().map_values(|m: MessageView| transcript_line(m)),
            lines.deep_view() == wanted.take(i as int),
        decreases turn@.len() - i,
    {
        let ghost before = lines.deep_view();
        let line = render_transcript_line(&turn[i]);
        lines.push(line);
        assert(lines.deep_view() =~= before.push(wanted[i as int]));
        assert(wanted.take(i + 1) =~= wanted.take(i as int).push(wanted[i as int]));
        i = i + 1;
    }
    assert(wanted.take(i as int) =~= wanted);
    text::join(&lines, "\n")
}

/// The messages that ask the model for a report.
pub fn status_report_messages(
    history: &Vec<Message>,
    tool_rounds_observed: u32,
    threshold: u32,
    current_round_tool_calls: usize,
    stage: StatusReportStage,
) -> (r: Vec<Message>)
    ensures
        r.deep_view() == seq![
            crate::message::text_message(Role::System, report_instructions()),
            crate::message::text_message(
                Role::User,
                report_request(
                    history.deep_view(),
                    tool_rounds_observed,
                    threshold,
                    current_round_tool_calls as nat,
                    stage,
                ),
            ),
        ],
{
    let system = "You generate internal status reports for a coding-agent UI. Return JSON only with keys progress_percent, confidence_percent, completed_summary, and remaining_summary. completed_summary and remaining_summary must each be exactly one sentence. Evaluate progress_percent against the full amount of work required by the latest user request, not against tool counts, elapsed time, or transcript length. Set confidence_percent to your confidence that the agent can fully complete the latest user request from the current trajectory and evidence. Do not include markdown fences or extra commentary.".to_owned();
    let mut request = "Generate a concise status report for this in-progress coding turn.\nLatest user request:\n".to_owned();
    match latest_user_request_text(history) {
        Some(content) => {
            request.append(content.as_str());
        },
        None => {
            request.append("No explicit user request captured.");
        },
    }
    request.append("\n\nTool rounds observed in this turn: ");
    let rounds = text::decimal(tool_rounds_observed as u64);
    request.append(rounds.as_str());
    request.append("\nReporting threshold: ");
    let threshold: u32 = if threshold == 0 {
        1
    } else {
        threshold
    };
    let threshold_text = text::decimal(threshold as u64);
    request.append(threshold_text.as_str());
    request.append("\nCurrent round tool calls: ");
    let calls = text::decimal(current_round_tool_calls as u64);
    request.append(calls.as_str());
    request.append("\nEstimate confidence_percent as your confidence that the agent can fully complete the latest user request from the current trajectory and evidence.\nDo not use tool rounds, tool calls, or transcript length as a proxy for progress.\nUse tool activity only as evidence for what is done and what still needs work.\n");
    match stage {
        StatusReportStage::Completed => {
            request.append("The turn has completed. Set progress_percent to 100.");
        },
        StatusReportStage::ReviewingResults => {
            request.append("The turn is still active after a tool round. Set progress_percent between 1 and 95.");
        },
    }
    request.append("\n\nCurrent user-turn transcript:\n");
    let transcript_text = render_status_report_transcript(history);
    request.append(transcript_text.as_str());
    let mut r: Vec<Message> = Vec::new();
    r.push(Message::system(system));
    r.push(Message::user(request));
    assert(r.deep_view() =~= seq![r@[0].deep_view(), r@[1].deep_view()]);
    r
}

/// The texts that may hold the JSON of a report.
pub fn status_report_payload_texts(raw: &str) -> (r: Vec<String>)
    ensures
        r.deep_view() == payload_texts(raw@),
{
    let trimmed = text::trim(raw);
    let chars = text::chars_of(trimmed.as_str());
    let mut r: Vec<String> = Vec::new();
    if chars.len() == 0 {
        assert(r.deep_view() =~= Seq::empty());
        return r;
    }
    let ghost t = trimmed@;
    let mut start: usize = 0;
    assert(t.skip(0) =~= t);
    while start < chars.len() && chars[start] != '{'
        invariant
            start <= chars@.len(),
            chars@ == t,
            text::until(t, '{') == start + text::until(t.skip(start as int), '{'),
        decreases chars@.len() - start,
    {
        assert(t.skip(start as int).drop_first() =~= t.skip(start + 1));
        start = start + 1;
    }
    let mut end: usize = chars.len();
    assert(t.take(end as int) =~= t);
    while end > 0 && chars[end - 1] != '}'
        invariant
            end <= chars@.len(),
            chars@ == t,
            last_position(t, '}') == last_position(t.take(end as int), '}'),
        decreases end,
    {
        assert(t.take(end as int).drop_last() =~= t.take(end - 1));
        assert(t.take(end as int).last() == t[end - 1]);
        end = end - 1;
    }
    proof {
        if end > 0 {
            assert(t.take(end as int).last() == t[end - 1]);
        }
        assert(last_position(t, '}') == end - 1);
        assert(text::until(t.skip(start as int), '{') == 0);
    }
    r.push(trimmed);
    if end > 0 && start < end - 1 {
        let inner = text::text_between(&chars, start, end);
        r.push(inner);
        assert(r.deep_view() =~= seq![t, t.subrange(start as int, end as int)]);
    } else {
        assert(r.deep_view() =~= seq![t]);
    }
    r
}

/// The report on a turn: from what the model returned, or without it where the model
/// failed or returned something else.
pub fn finish_status_report(
    payload: Option<ModelStatusReportPayload>,
    tool_rounds_observed: u32,
    threshold: u32,
    current_round_tool_calls: usize,
    stage: StatusReportStage,
    prior_confidence: Option<u8>,
) -> (r: SessionStatusReport)
    ensures
        r.deep_view() == (match payload.deep_view() {
            Some(payload) => model_report(payload, stage, tool_rounds_observed),
            None => plain_report(
                tool_rounds_observed,
                threshold,
                current_round_tool_calls as nat,
                stage,
                prior_confidence,
            ),
        }),
{
    match payload {
        Some(payload) => status_report_from_payload(&payload, stage, tool_rounds_observed),
        None => build_status_report(
            tool_rounds_observed,
            threshold,
            current_round_tool_calls,
            stage,
            prior_confidence,
        ),
    }
}

} // verus!
