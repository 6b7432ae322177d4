//! Keeping a conversation inside the context window of its model.

use vstd::prelude::*;
use vstd::string::*;
use vstd::utf8::encode_utf8;

use crate::message::{
    role_label, role_text, text_message, Message, MessageContent, MessageContentView, MessageView,
    Role, ToolUseRequest, ToolUseRequestView,
};
use crate::text;

verus! {

broadcast use vstd::seq::group_seq_axioms;

/// The share of the context window at which a history is compacted: three fifths.
pub const AUTO_COMPACT_THRESHOLD_NUMERATOR: u64 = 3;

/// See [`AUTO_COMPACT_THRESHOLD_NUMERATOR`].
pub const AUTO_COMPACT_THRESHOLD_DENOMINATOR: u64 = 5;

/// The longest tool result that the history holds in full.
pub const MAX_TOOL_RESULT_CHARS_IN_HISTORY: usize = 256_000;

/// How much of an archived result is shown from its beginning.
pub const TOOL_RESULT_PREVIEW_HEAD_CHARS: usize = 8_000;

/// How much of an archived result is shown from its end.
pub const TOOL_RESULT_PREVIEW_TAIL_CHARS: usize = 2_000;

/// How many lines of a result that is archived at once are shown.
pub const INITIAL_TOOL_RESULT_PREVIEW_LINES: usize = 12;

/// Why a history is compacted.
#[derive(Clone, Copy, Debug, PartialEq, Eq, Structural)]
pub enum CompactionTrigger {
    Auto,
    Manual,
}

impl DeepView for CompactionTrigger {
    type V = CompactionTrigger;

    open spec fn deep_view(&self) -> CompactionTrigger {
        *self
    }
}

/// Where the summary of a compaction comes from.
#[derive(Clone, Copy, Debug, PartialEq, Eq, Structural)]
pub enum CompactionSource {
    SessionMemory,
    LegacySummarizer,
}

impl DeepView for CompactionSource {
    type V = CompactionSource;

    open spec fn deep_view(&self) -> CompactionSource {
        *self
    }
}

/// How a history is compacted.
#[derive(Debug)]
pub struct CompactionPlan {
    pub source: CompactionSource,
    pub summary: String,
    /// Where the messages begin that stay.
    pub tail_start: usize,
}

/// The model of [`CompactionPlan`].
#[verifier::ext_equal]
pub struct CompactionPlanView {
    pub source: CompactionSource,
    pub summary: Seq<char>,
    pub tail_start: usize,
}

impl DeepView for CompactionPlan {
    type V = CompactionPlanView;

    open spec fn deep_view(&self) -> CompactionPlanView {
        CompactionPlanView {
            source: self.source,
            summary: self.summary.deep_view(),
            tail_start: self.tail_start,
        }
    }
}

/// Where a transcript was archived.
#[derive(Debug)]
pub struct ArchivedTranscript {
    pub generation: u64,
    pub path: String,
}

/// The model of [`ArchivedTranscript`].
#[verifier::ext_equal]
pub struct ArchivedTranscriptView {
    pub generation: u64,
    pub path: Seq<char>,
}

impl DeepView for ArchivedTranscript {
    type V = ArchivedTranscriptView;

    open spec fn deep_view(&self) -> ArchivedTranscriptView {
        ArchivedTranscriptView {
            generation: self.generation,
            path: self.path.deep_view(),
        }
    }
}

impl Clone for ArchivedTranscript {
    fn clone(&self) -> (r: Self)
        ensures
            r.deep_view() == self.deep_view(),
    {
        ArchivedTranscript {
            generation: self.generation,
            path: self.path.clone(),
        }
    }
}

/// What the session memory knows of a history.
#[derive(Debug)]
pub struct CompactionSnapshot {
    pub summary_markdown: String,
    pub last_summarized_message_index: usize,
}

/// The model of [`CompactionSnapshot`].
#[verifier::ext_equal]
pub struct CompactionSnapshotView {
    pub summary_markdown: Seq<char>,
    pub last_summarized_message_index: usize,
}

impl DeepView for CompactionSnapshot {
    type V = CompactionSnapshotView;

    open spec fn deep_view(&self) -> CompactionSnapshotView {
        CompactionSnapshotView {
            summary_markdown: self.summary_markdown.deep_view(),
            last_summarized_message_index: self.last_summarized_message_index,
        }
    }
}

/// The name of a trigger.
pub open spec fn trigger_text(trigger: CompactionTrigger) -> Seq<char> {
    match trigger {
        CompactionTrigger::Auto => "auto"@,
        CompactionTrigger::Manual => "manual"@,
    }
}

impl CompactionTrigger {
    /// The name of the trigger.
    pub fn as_str(self) -> (r: &'static str)
        ensures
            r@ == trigger_text(self),
    {
        match self {
            CompactionTrigger::Auto => "auto",
            CompactionTrigger::Manual => "manual",
        }
    }
}

/// The token count from which on a history is compacted: three fifths of the window,
/// computed on a product that stops at the largest `u64`.
pub open spec fn compact_threshold(window: u64) -> u64 {
    if window * 3 > u64::MAX {
        (u64::MAX / 5) as u64
    } else {
        (window * 3 / 5) as u64
    }
}

/// Whether a prompt of `tokens` has reached the threshold of a known window.
pub open spec fn compaction_due(window: Option<u64>, tokens: Option<u64>) -> bool {
    match (window, tokens) {
        (Some(window), Some(tokens)) => tokens >= compact_threshold(window),
        _ => false,
    }
}

/// The token count from which on a history is compacted.
pub fn auto_compact_threshold(max_context_window: Option<u64>) -> (r: Option<u64>)
    ensures
        r == (match max_context_window {
            Some(window) => Some(compact_threshold(window)),
            None => None,
        }),
{
    match max_context_window {
        Some(window) => {
            let product: u64 = match window.checked_mul(AUTO_COMPACT_THRESHOLD_NUMERATOR) {
                Some(product) => product,
                None => u64::MAX,
            };
            Some(product / AUTO_COMPACT_THRESHOLD_DENOMINATOR)
        },
        None => None,
    }
}

/// The token count from which on a history is compacted at a percentage of the window,
/// computed on a product that stops at the largest `u64`.
pub open spec fn compact_threshold_at(window: u64, percent: u8) -> u64 {
    if window * percent > u64::MAX {
        (u64::MAX / 100) as u64
    } else {
        (window * percent / 100) as u64
    }
}

/// Whether a prompt of `tokens` has reached a percentage of a known window.
pub open spec fn compaction_due_at(
    window: Option<u64>,
    tokens: Option<u64>,
    percent: u8,
) -> bool {
    match (window, tokens) {
        (Some(window), Some(tokens)) => tokens >= compact_threshold_at(window, percent),
        _ => false,
    }
}

/// Where no percentage is chosen a history is compacted as at sixty percent, for every window
/// whose hundredfold is a `u64`.
pub proof fn law_sixty_percent_is_the_default(window: Option<u64>, tokens: Option<u64>)
    requires
        window matches Some(window) ==> window <= u64::MAX / 100,
    ensures
        compaction_due_at(window, tokens, 60) == compaction_due(window, tokens),
{
    if let Some(window) = window {
        assert(window * 60 / 100 == window * 3 / 5);
    }
}

/// Whether the history has to be compacted before the next call of the model.
pub fn should_auto_compact(
    max_context_window: Option<u64>,
    last_input_tokens: Option<u64>,
) -> (r: bool)
    ensures
        r == compaction_due(max_context_window, last_input_tokens),
{
    match (auto_compact_threshold(max_context_window), last_input_tokens) {
        (Some(threshold), Some(tokens)) => tokens >= threshold,
        _ => false,
    }
}

/// Whether the history has to be compacted before the next call of the model, at a percentage
/// of the window.
pub fn should_auto_compact_at(
    max_context_window: Option<u64>,
    last_input_tokens: Option<u64>,
    percent: u8,
) -> (r: bool)
    ensures
        r == compaction_due_at(max_context_window, last_input_tokens, percent),
{
    match (max_context_window, last_input_tokens) {
        (Some(window), Some(tokens)) => {
            let product: u64 = match window.checked_mul(percent as u64) {
                Some(product) => product,
                None => u64::MAX,
            };
            tokens >= product / 100
        },
        _ => false,
    }
}

/// Where the run of tool results at the end of a history begins.
pub open spec fn results_start(history: Seq<MessageView>) -> int
    decreases history.len(),
{
    if history.len() > 0 && history.last().content is ToolResult {
        results_start(history.drop_last())
    } else {
        history.len() as int
    }
}

/// Where the part of a history begins that the next call of the model answers: the tool
/// calls whose results are last, with these results; unanswered tool calls; or the user
/// message at the end. A history that ends with anything else has no such part.
pub open spec fn live_tail(history: Seq<MessageView>) -> Option<int> {
    if history.len() == 0 {
        None
    } else {
        match history.last().content {
            MessageContentView::ToolResult { .. } => {
                let start = results_start(history);
                if start > 0 && history[start - 1].content is ToolUse {
                    Some(start - 1)
                } else {
                    Some(start)
                }
            },
            MessageContentView::ToolUse { .. } => Some(history.len() - 1),
            MessageContentView::Text(_) => if history.last().role == Role::User {
                Some(history.len() - 1)
            } else {
                None
            },
        }
    }
}

/// The number of messages in front of the live tail.
pub open spec fn tail_from(history: Seq<MessageView>) -> int {
    match live_tail(history) {
        Some(start) => start,
        None => history.len() as int,
    }
}

proof fn lemma_results_start(history: Seq<MessageView>)
    ensures
        0 <= results_start(history) <= history.len(),
        forall|i: int|
            results_start(history) <= i < history.len() ==> history[i].content is ToolResult,
        results_start(history) > 0 ==> !(history[results_start(history) - 1].content is ToolResult),
    decreases history.len(),
{
    if history.len() > 0 && history.last().content is ToolResult {
        lemma_results_start(history.drop_last());
        assert(forall|i: int|
            0 <= i < history.len() - 1 ==> history.drop_last()[i] == history[i]);
    }
}

/// The live tail lies inside the history.
pub proof fn lemma_tail_from(history: Seq<MessageView>)
    ensures
        0 <= tail_from(history) <= history.len(),
        history.len() > 0 && live_tail(history) is Some ==> tail_from(history) < history.len(),
{
    lemma_results_start(history);
}

/// Two histories whose messages are of the same kinds and roles, position by position.
pub open spec fn same_shape(a: Seq<MessageView>, b: Seq<MessageView>) -> bool {
    &&& a.len() == b.len()
    &&& forall|i: int|
        0 <= i < a.len() ==> {
            &&& #[trigger] a[i].role == b[i].role
            &&& (a[i].content is Text <==> b[i].content is Text)
            &&& (a[i].content is ToolUse <==> b[i].content is ToolUse)
            &&& (a[i].content is ToolResult <==> b[i].content is ToolResult)
        }
}

proof fn lemma_same_results_start(a: Seq<MessageView>, b: Seq<MessageView>)
    requires
        same_shape(a, b),
    ensures
        results_start(a) == results_start(b),
    decreases a.len(),
{
    if a.len() > 0 {
        assert(a[a.len() - 1].role == b[a.len() - 1].role);
        if a.last().content is ToolResult {
            assert forall|i: int| 0 <= i < a.len() - 1 implies {
                &&& #[trigger] a.drop_last()[i].role == b.drop_last()[i].role
                &&& (a.drop_last()[i].content is Text <==> b.drop_last()[i].content is Text)
                &&& (a.drop_last()[i].content is ToolUse <==> b.drop_last()[i].content is ToolUse)
                &&& (a.drop_last()[i].content is ToolResult
                    <==> b.drop_last()[i].content is ToolResult)
            } by {
                assert(a[i].role == b[i].role);
            }
            lemma_same_results_start(a.drop_last(), b.drop_last());
        }
    }
}

/// Histories of the same shape have their live tail at the same place.
pub proof fn law_shape_decides_live_tail(a: Seq<MessageView>, b: Seq<MessageView>)
    requires
        same_shape(a, b),
    ensures
        live_tail(a) == live_tail(b),
        tail_from(a) == tail_from(b),
{
    lemma_same_results_start(a, b);
    lemma_results_start(a);
    if a.len() > 0 {
        assert(a[a.len() - 1].role == b[a.len() - 1].role);
        let start = results_start(a);
        if start > 0 {
            assert(a[start - 1].role == b[start - 1].role);
        }
    }
}

/// The name of the last tool call with that identifier.
pub open spec fn call_name(calls: Seq<ToolUseRequestView>, tool_use_id: Seq<char>) -> Option<
    Seq<char>,
>
    decreases calls.len(),
{
    if calls.len() == 0 {
        None
    } else if calls.last().tool_use_id == tool_use_id {
        Some(calls.last().tool_name)
    } else {
        call_name(calls.drop_last(), tool_use_id)
    }
}

/// The name of the tool that the last call with that identifier asked for.
pub open spec fn tool_name_of(history: Seq<MessageView>, tool_use_id: Seq<char>) -> Option<
    Seq<char>,
>
    decreases history.len(),
{
    if history.len() == 0 {
        None
    } else {
        let earlier = tool_name_of(history.drop_last(), tool_use_id);
        match history.last().content {
            MessageContentView::ToolUse { tool_calls, .. } => match call_name(
                tool_calls,
                tool_use_id,
            ) {
                Some(name) => Some(name),
                None => earlier,
            },
            _ => earlier,
        }
    }
}

/// The word for how a tool ended.
pub open spec fn status_text(is_error: bool) -> Seq<char> {
    if is_error {
        "error"@
    } else {
        "ok"@
    }
}

/// What stands for a tool result that was left out.
pub open spec fn placeholder(
    tool_name: Option<Seq<char>>,
    tool_use_id: Seq<char>,
    is_error: bool,
    length: nat,
) -> Seq<char> {
    "[tool result elided: "@ + (match tool_name {
        Some(name) => name + ", "@,
        None => Seq::empty(),
    }) + status_text(is_error) + ", "@ + text::digits(length) + " chars, id="@ + tool_use_id
        + "]"@
}

/// The number of bytes of a text in UTF-8.
pub open spec fn byte_length(content: Seq<char>) -> nat {
    encode_utf8(content).len() as usize as nat
}

/// A message of a micro-compacted history: a tool result in front of the live tail is
/// replaced by a placeholder, any other message stays.
pub open spec fn micro_compacted(history: Seq<MessageView>, i: int) -> MessageView {
    match history[i].content {
        MessageContentView::ToolResult { tool_use_id, output, is_error } => if i < tail_from(
            history,
        ) {
            MessageView {
                role: history[i].role,
                content: MessageContentView::ToolResult {
                    tool_use_id,
                    output: placeholder(
                        tool_name_of(history, tool_use_id),
                        tool_use_id,
                        is_error,
                        byte_length(output),
                    ),
                    is_error,
                },
            }
        } else {
            history[i]
        },
        _ => history[i],
    }
}

/// The history with the tool results in front of the live tail replaced by placeholders.
pub open spec fn micro_compacted_history(history: Seq<MessageView>) -> Seq<MessageView> {
    Seq::new(history.len(), |i: int| micro_compacted(history, i))
}

/// Micro-compaction keeps the shape of a history, its live tail, and the identifier and
/// error flag of every tool result.
pub proof fn law_micro_compaction_keeps_the_shape(history: Seq<MessageView>)
    ensures
        same_shape(history, micro_compacted_history(history)),
        tail_from(micro_compacted_history(history)) == tail_from(history),
        micro_compacted_history(history).skip(tail_from(history)) == history.skip(
            tail_from(history),
        ),
        forall|i: int|
            0 <= i < history.len() && (#[trigger] history[i]).content is ToolResult ==> {
                let c = micro_compacted_history(history)[i].content;
                &&& c->tool_use_id == history[i].content->tool_use_id
                &&& c->is_error == history[i].content->is_error
            },
{
    let compacted = micro_compacted_history(history);
    law_shape_decides_live_tail(history, compacted);
    lemma_tail_from(history);
    assert(compacted.skip(tail_from(history)) =~= history.skip(tail_from(history)));
}

/// Whether the tool result at position `i` has to be archived: it stands in front of the
/// live tail and is not a reference to an archive already.
pub open spec fn needs_archiving(history: Seq<MessageView>, i: int) -> bool {
    match history[i].content {
        MessageContentView::ToolResult { output, .. } => i < tail_from(history)
            && !"[tool result archived:"@.is_prefix_of(output),
        _ => false,
    }
}

/// The line in front of an archived tool result.
pub open spec fn archive_header(
    tool_name: Seq<char>,
    tool_use_id: Seq<char>,
    is_error: bool,
    length: nat,
    archive_ref: Seq<char>,
) -> Seq<char> {
    "[tool result archived:"@ + " "@ + tool_name + ", "@ + status_text(is_error) + ", "@
        + text::digits(length) + " chars, id="@ + tool_use_id + ", archive="@ + archive_ref
        + "]\n"@
}

/// An archived tool result: its beginning and, where it is long, its end.
pub open spec fn archived_result(
    tool_name: Seq<char>,
    tool_use_id: Seq<char>,
    is_error: bool,
    output: Seq<char>,
    archive_ref: Seq<char>,
) -> Seq<char> {
    archive_header(tool_name, tool_use_id, is_error, output.len(), archive_ref) + (
    if output.len() > TOOL_RESULT_PREVIEW_HEAD_CHARS {
        output.take(TOOL_RESULT_PREVIEW_HEAD_CHARS as int) + "\n\n[... elided ...]\n\n"@
            + text::last_chars(output, TOOL_RESULT_PREVIEW_TAIL_CHARS as nat)
    } else {
        output
    })
}

/// The first lines of a tool result, joined again.
pub open spec fn preview(output: Seq<char>) -> Seq<char> {
    let lines = text::line_list(output);
    text::joined(
        if lines.len() > INITIAL_TOOL_RESULT_PREVIEW_LINES {
            lines.take(INITIAL_TOOL_RESULT_PREVIEW_LINES as int)
        } else {
            lines
        },
        "\n"@,
    )
}

/// A tool result that is archived when it arrives: its first lines, and a notice of what
/// was left out.
pub open spec fn initial_archived_result(
    tool_name: Seq<char>,
    tool_use_id: Seq<char>,
    is_error: bool,
    output: Seq<char>,
    archive_ref: Seq<char>,
) -> Seq<char> {
    let lines = text::line_list(output);
    archive_header(tool_name, tool_use_id, is_error, output.len(), archive_ref) + preview(output)
        + (if lines.len() > INITIAL_TOOL_RESULT_PREVIEW_LINES {
        "\n\n[... omitted "@ + text::digits(
            (lines.len() - INITIAL_TOOL_RESULT_PREVIEW_LINES) as nat,
        ) + " more line(s); full tool result archived at "@ + archive_ref + " ...]"@
    } else if output.len() > preview(output).len() {
        "\n\n[... remaining content omitted; full tool result archived at "@ + archive_ref
            + " ...]"@
    } else {
        Seq::empty()
    })
}

/// A message after archiving: the result at a position that has an archive is replaced by
/// a reference to it.
pub open spec fn archived_message(
    history: Seq<MessageView>,
    archives: Seq<Option<Seq<char>>>,
    i: int,
) -> MessageView {
    match (history[i].content, archives[i]) {
        (
            MessageContentView::ToolResult { tool_use_id, output, is_error },
            Some(archive_ref),
        ) => if needs_archiving(history, i) {
            MessageView {
                role: history[i].role,
                content: MessageContentView::ToolResult {
                    tool_use_id,
                    output: archived_result(
                        match tool_name_of(history, tool_use_id) {
                            Some(name) => name,
                            None => "unknown"@,
                        },
                        tool_use_id,
                        is_error,
                        output,
                        archive_ref,
                    ),
                    is_error,
                },
            }
        } else {
            history[i]
        },
        _ => history[i],
    }
}

/// The history with its old tool results replaced by references to their archives.
pub open spec fn archived_history(
    history: Seq<MessageView>,
    archives: Seq<Option<Seq<char>>>,
) -> Seq<MessageView> {
    Seq::new(history.len(), |i: int| archived_message(history, archives, i))
}

/// A reference to an archive is recognised as one.
pub proof fn lemma_archived_result_is_recognised(
    tool_name: Seq<char>,
    tool_use_id: Seq<char>,
    is_error: bool,
    output: Seq<char>,
    archive_ref: Seq<char>,
)
    ensures
        "[tool result archived:"@.is_prefix_of(
            archived_result(tool_name, tool_use_id, is_error, output, archive_ref),
        ),
        "[tool result archived:"@.is_prefix_of(
            initial_archived_result(tool_name, tool_use_id, is_error, output, archive_ref),
        ),
{
    let mark = "[tool result archived:"@;
    let a = archived_result(tool_name, tool_use_id, is_error, output, archive_ref);
    let b = initial_archived_result(tool_name, tool_use_id, is_error, output, archive_ref);
    assert(mark =~= a.subrange(0, mark.len() as int));
    assert(mark =~= b.subrange(0, mark.len() as int));
}

/// Once every old tool result has an archive, none is left to archive, and the live tail
/// is as before.
pub proof fn law_archiving_is_done_once(
    history: Seq<MessageView>,
    archives: Seq<Option<Seq<char>>>,
)
    requires
        archives.len() == history.len(),
        forall|i: int|
            0 <= i < history.len() && needs_archiving(history, i) ==> (
            #[trigger] archives[i]) is Some,
    ensures
        same_shape(history, archived_history(history, archives)),
        archived_history(history, archives).skip(tail_from(history)) == history.skip(
            tail_from(history),
        ),
        forall|i: int|
            0 <= i < history.len() ==> !(#[trigger] needs_archiving(
                archived_history(history, archives),
                i,
            )),
{
    let archived = archived_history(history, archives);
    assert forall|i: int| 0 <= i < history.len() implies {
        &&& #[trigger] history[i].role == archived[i].role
        &&& (history[i].content is Text <==> archived[i].content is Text)
        &&& (history[i].content is ToolUse <==> archived[i].content is ToolUse)
        &&& (history[i].content is ToolResult <==> archived[i].content is ToolResult)
    } by {}
    law_shape_decides_live_tail(history, archived);
    lemma_tail_from(history);
    assert(archived.skip(tail_from(history)) =~= history.skip(tail_from(history)));
    assert forall|i: int| 0 <= i < history.len() implies !(#[trigger] needs_archiving(
        archived,
        i,
    )) by {
        if needs_archiving(history, i) {
            assert(archives[i] is Some);
            let c = history[i].content;
            lemma_archived_result_is_recognised(
                match tool_name_of(history, c->tool_use_id) {
                    Some(name) => name,
                    None => "unknown"@,
                },
                c->tool_use_id,
                c->is_error,
                c->output,
                archives[i]->0,
            );
        }
    }
}

/// Where the live tail of a history begins.
pub fn live_tail_start(history: &Vec<Message>) -> (r: Option<usize>)
    ensures
        match r {
            Some(start) => live_tail(history.deep_view()) == Some(start as int),
            None => live_tail(history.deep_view()) is None,
        },
        r matches Some(start) ==> start < history@.len(),
{
    let ghost all = history.deep_view();
    proof {
        lemma_tail_from(all);
    }
    if history.len() == 0 {
        return None;
    }
    let last = &history[history.len() - 1];
    match &last.content {
        MessageContent::ToolResult { .. } => {
            let mut start: usize = history.len();
            assert(all.take(start as int) =~= all);
            while start > 0 && is_tool_result(&history[start - 1])
                invariant
                    start <= history@.len(),
                    all == history.deep_view(),
                    results_start(all) == results_start(all.take(start as int)),
                decreases start,
            {
                assert(all.take(start as int).drop_last() =~= all.take(start - 1));
                assert(all.take(start as int).last() == all[start - 1]);
                start = start - 1;
            }
            proof {
                if start > 0 {
                    assert(all.take(start as int).last() == all[start - 1]);
                }
                assert(results_start(all) == start);
            }
            if start > 0 && is_tool_use(&history[start - 1]) {
                Some(start - 1)
            } else {
                Some(start)
            }
        },
        MessageContent::ToolUse { .. } => Some(history.len() - 1),
        MessageContent::Text(_) => {
            if last.role == Role::User {
                Some(history.len() - 1)
            } else {
                None
            }
        },
    }
}

fn is_tool_result(message: &Message) -> (r: bool)
    ensures
        r == message.deep_view().content is ToolResult,
{
    match &message.content {
        MessageContent::ToolResult { .. } => true,
        _ => false,
    }
}

fn is_tool_use(message: &Message) -> (r: bool)
    ensures
        r == message.deep_view().content is ToolUse,
{
    match &message.content {
        MessageContent::ToolUse { .. } => true,
        _ => false,
    }
}

/// The number of messages in front of the live tail.
fn live_tail_from(history: &Vec<Message>) -> (r: usize)
    ensures
        r == tail_from(history.deep_view()),
        r <= history@.len(),
{
    match live_tail_start(history) {
        Some(start) => start,
        None => history.len(),
    }
}

/// The name of the last tool call with that identifier.
fn find_call_name(calls: &Vec<ToolUseRequest>, tool_use_id: &str) -> (r: Option<String>)
    ensures
        r.deep_view() == call_name(calls.deep_view(), tool_use_id@),
{
    let ghost all = calls.deep_view();
    let mut i: usize = calls.len();
    assert(all.take(i as int) =~= all);
    while i > 0
        invariant
            i <= calls@.len(),
            all == calls.deep_view(),
            call_name(all, tool_use_id@) == call_name(all.take(i as int), tool_use_id@),
        decreases i,
    {
        assert(all.take(i as int).drop_last() =~= all.take(i - 1));
        assert(all.take(i as int).last() == all[i - 1]);
        if text::same(calls[i - 1].tool_use_id.as_str(), tool_use_id) {
            return Some(calls[i - 1].tool_name.clone());
        }
        i = i - 1;
    }
    assert(all.take(0) =~= Seq::empty());
    None
}

/// The name of the tool that the last call with that identifier asked for.
pub fn find_tool_name(history: &Vec<Message>, tool_use_id: &str) -> (r: Option<String>)
    ensures
        r.deep_view() == tool_name_of(history.deep_view(), tool_use_id@),
{
    let ghost all = history.deep_view();
    let mut i: usize = history.len();
    assert(all.take(i as int) =~= all);
    while i > 0
        invariant
            i <= history@.len(),
            all == history.deep_view(),
            tool_name_of(all, tool_use_id@) == tool_name_of(all.take(i as int), tool_use_id@),
        decreases i,
    {
        assert(all.take(i as int).drop_last() =~= all.take(i - 1));
        assert(all.take(i as int).last() == all[i - 1]);
        if let MessageContent::ToolUse { tool_calls, .. } = &history[i - 1].content {
            if let Some(name) = find_call_name(tool_calls, tool_use_id) {
                return Some(name);
            }
        }
        i = i - 1;
    }
    assert(all.take(0) =~= Seq::empty());
    None
}

/// The word for how a tool ended.
fn status_label(is_error: bool) -> (r: &'static str)
    ensures
        r@ == status_text(is_error),
{
    if is_error {
        "error"
    } else {
        "ok"
    }
}

/// What stands for a tool result that was left out.
pub fn render_tool_placeholder(
    tool_name: Option<&str>,
    tool_use_id: &str,
    is_error: bool,
    output_len: usize,
) -> (r: String)
    ensures
        r@ == placeholder(
            match tool_name {
                Some(name) => Some(name@),
                None => None,
            },
            tool_use_id@,
            is_error,
            output_len as nat,
        ),
{
    let mut r = "[tool result elided: ".to_owned();
    match tool_name {
        Some(name) => {
            let mut named = name.to_owned();
            named.append(", ");
            r.append(named.as_str());
        },
        None => {
            assert(r@ + Seq::<char>::empty() =~= r@);
        },
    }
    r.append(status_label(is_error));
    r.append(", ");
    let length = text::decimal(output_len as u64);
    r.append(length.as_str());
    r.append(" chars, id=");
    r.append(tool_use_id);
    r.append("]");
    r
}

/// The history with the tool results in front of the live tail replaced by placeholders.
pub fn build_micro_compacted_history(history: &Vec<Message>) -> (r: Vec<Message>)
    ensures
        r.deep_view() == micro_compacted_history(history.deep_view()),
{
    let preserve_from = live_tail_from(history);
    let mut r: Vec<Message> = Vec::new();
    let ghost all = history.deep_view();
    let ghost wanted = micro_compacted_history(all);
    let mut i: usize = 0;
    while i < history.len()
        invariant
            i <= history@.len(),
            all == history.deep_view(),
            wanted == micro_compacted_history(all),
            preserve_from == tail_from(all),
            r.deep_view() == wanted.take(i as int),
        decreases history@.len() - i,
    {
        let ghost before = r.deep_view();
        let message = &history[i];
        let new_message = match &message.content {
            MessageContent::ToolResult { tool_use_id, output, is_error } => {
                if i < preserve_from {
                    let name = find_tool_name(history, tool_use_id.as_str());
                    let shown = match &name {
                        Some(name) => render_tool_placeholder(
                            Some(name.as_str()),
                            tool_use_id.as_str(),
                            *is_error,
                            output.as_str().len(),
                        ),
                        None => render_tool_placeholder(
                            None,
                            tool_use_id.as_str(),
                            *is_error,
                            output.as_str().len(),
                        ),
                    };
                    Message {
                        role: message.role,
                        content: MessageContent::ToolResult {
                            tool_use_id: tool_use_id.clone(),
                            output: shown,
                            is_error: *is_error,
                        },
                    }
                } else {
                    message.clone()
                }
            },
            _ => message.clone(),
        };
        assert(all[i as int] == message.deep_view());
        assert(new_message.deep_view() == wanted[i as int]);
        r.push(new_message);
        assert(r.deep_view() =~= before.push(wanted[i as int]));
        assert(wanted.take(i + 1) =~= wanted.take(i as int).push(wanted[i as int]));
        i = i + 1;
    }
    assert(wanted.take(i as int) =~= wanted);
    r
}

/// Copies of the messages in `from..to`.
pub fn copy_messages(history: &Vec<Message>, from: usize, to: usize) -> (r: Vec<Message>)
    requires
        from <= to <= history@.len(),
    ensures
        r.deep_view() == history.deep_view().subrange(from as int, to as int),
{
    let mut r: Vec<Message> = Vec::new();
    let ghost all = history.deep_view();
    let mut i: usize = from;
    while i < to
        invariant
            from <= i <= to <= history@.len(),
            all == history.deep_view(),
            r.deep_view() == all.subrange(from as int, i as int),
        decreases to - i,
    {
        let ghost before = r.deep_view();
        r.push(history[i].clone());
        assert(r.deep_view() =~= before.push(all[i as int]));
        assert(all.subrange(from as int, i + 1) =~= all.subrange(from as int, i as int).push(
            all[i as int],
        ));
        i = i + 1;
    }
    r
}

/// The history in two parts: what is summarized, and the live tail.
pub fn split_history_for_compaction(history: &Vec<Message>) -> (r: (Vec<Message>, Vec<Message>))
    ensures
        r.0.deep_view() == history.deep_view().take(tail_from(history.deep_view())),
        r.1.deep_view() == history.deep_view().skip(tail_from(history.deep_view())),
        r.0.deep_view() + r.1.deep_view() == history.deep_view(),
{
    let start = live_tail_from(history);
    let prefix = copy_messages(history, 0, start);
    let tail = copy_messages(history, start, history.len());
    assert(prefix.deep_view() =~= history.deep_view().take(start as int));
    assert(tail.deep_view() =~= history.deep_view().skip(start as int));
    assert(prefix.deep_view() + tail.deep_view() =~= history.deep_view());
    (prefix, tail)
}

/// Whether the part of a history that would be summarized holds more than the system
/// prompt.
pub open spec fn worth_compacting(history: Seq<MessageView>) -> bool {
    exists|i: int| 0 <= i < tail_from(history) && (#[trigger] history[i]).role != Role::System
}

/// Whether there is anything to summarize.
pub fn has_compactable_messages(history: &Vec<Message>) -> (r: bool)
    ensures
        r == worth_compacting(history.deep_view()),
{
    let start = live_tail_from(history);
    let mut i: usize = 0;
    while i < start
        invariant
            i <= start <= history@.len(),
            start == tail_from(history.deep_view()),
            forall|j: int|
                0 <= j < i ==> (#[trigger] history.deep_view()[j]).role == Role::System,
        decreases start - i,
    {
        if history[i].role != Role::System {
            assert(history.deep_view()[i as int].role != Role::System);
            return true;
        }
        i = i + 1;
    }
    false
}

/// One call of a tool in the transcript that is summarized.
pub open spec fn call_line(call: ToolUseRequestView) -> Seq<char> {
    "\n- "@ + call.tool_name + " id="@ + call.tool_use_id + " args="@ + call.arguments.json()
}

/// The calls of a message in the transcript that is summarized.
pub open spec fn call_lines(calls: Seq<ToolUseRequestView>) -> Seq<char>
    decreases calls.len(),
{
    if calls.len() == 0 {
        Seq::empty()
    } else {
        call_lines(calls.drop_last()) + call_line(calls.last())
    }
}

/// One message of the transcript that is summarized.
pub open spec fn transcript_block(message: MessageView) -> Seq<char> {
    match message.content {
        MessageContentView::Text(content) => role_text(message.role) + ":\n"@ + content,
        MessageContentView::ToolUse { text: said, tool_calls } => "assistant tool_use:"@ + (
        match said {
            Some(content) => "\n"@ + content,
            None => Seq::empty(),
        }) + call_lines(tool_calls),
        MessageContentView::ToolResult { tool_use_id, output, is_error } => "tool result id="@
            + tool_use_id + " error="@ + text::flag_text(is_error) + ":\n"@ + output,
    }
}

/// The blocks of the transcript: one for each message that is not the system's.
pub open spec fn transcript_blocks(history: Seq<MessageView>) -> Seq<Seq<char>>
    decreases history.len(),
{
    if history.len() == 0 {
        Seq::empty()
    } else if history.last().role == Role::System {
        transcript_blocks(history.drop_last())
    } else {
        transcript_blocks(history.drop_last()).push(transcript_block(history.last()))
    }
}

/// The calls of a message in the transcript.
fn render_call_lines(calls: &Vec<ToolUseRequest>) -> (r: String)
    ensures
        r@ == call_lines(calls.deep_view()),
{
    let mut r = String::new();
    let ghost all = calls.deep_view();
    let mut i: usize = 0;
    assert(all.take(0) =~= Seq::empty());
    while i < calls.len()
        invariant
            i <= calls@.len(),
            all == calls.deep_view(),
            r@ == call_lines(all.take(i as int)),
        decreases calls@.len() - i,
    {
        assert(all.take(i + 1).drop_last() =~= all.take(i as int));
        assert(all.take(i + 1).last() == calls@[i as int].deep_view());
        let mut line = "\n- ".to_owned();
        line.append(calls[i].tool_name.as_str());
        line.append(" id=");
        line.append(calls[i].tool_use_id.as_str());
        line.append(" args=");
        let json = calls[i].arguments.json();
        line.append(json.as_str());
        r.append(line.as_str());
        i = i + 1;
    }
    assert(all.take(i as int) =~= all);
    r
}

/// One message of the transcript.
fn render_transcript_block(message: &Message) -> (r: String)
    ensures
        r@ == transcript_block(message.deep_view()),
{
    match &message.content {
        MessageContent::Text(content) => {
            let mut r = role_label(message.role).to_owned();
            r.append(":\n");
            r.append(content.as_str());
            r
        },
        MessageContent::ToolUse { text: said, tool_calls } => {
            let mut r = "assistant tool_use:".to_owned();
            match said {
                Some(content) => {
                    let mut line = "\n".to_owned();
                    line.append(content.as_str());
                    r.append(line.as_str());
                },
                None => {
                    assert(r@ + Seq::<char>::empty() =~= r@);
                },
            }
            let lines = render_call_lines(tool_calls);
            r.append(lines.as_str());
            r
        },
        MessageContent::ToolResult { tool_use_id, output, is_error } => {
            let mut r = "tool result id=".to_owned();
            r.append(tool_use_id.as_str());
            r.append(" error=");
            if *is_error {
                r.append("true");
            } else {
                r.append("false");
            }
            r.append(":\n");
            r.append(output.as_str());
            r
        },
    }
}

/// The transcript that is summarized.
pub fn render_transcript(history: &Vec<Message>) -> (r: String)
    ensures
        r@ == text::joined(transcript_blocks(history.deep_view()), "\n\n"@),
{
    let mut blocks: Vec<String> = Vec::new();
    let ghost all = history.deep_view();
    let mut i: usize = 0;
    assert(all.take(0) =~= Seq::empty());
    assert(blocks.deep_view() =~= Seq::empty());
    while i < history.len()
        invariant
            i <= history@.len(),
            all == history.deep_view(),
            blocks.deep_view() == transcript_blocks(all.take(i as int)),
        decreases history@.len() - i,
    {
        assert(all.take(i + 1).drop_last() =~= all.take(i as int));
        assert(all.take(i + 1).last() == history@[i as int].deep_view());
        if history[i].role != Role::System {
            let ghost before = blocks.deep_view();
            let block = render_transcript_block(&history[i]);
            blocks.push(block);
            assert(blocks.deep_view() =~= before.push(block@));
        }
        i = i + 1;
    }
    assert(all.take(i as int) =~= all);
    text::join(&blocks, "\n\n")
}

/// The instructions to the model that summarizes.
pub open spec fn summary_instructions() -> Seq<char> {
    "You summarize archived coding-agent conversations for future continuation. Return plain text with these sections exactly: Current Goal, Constraints, Tool Findings, Open Threads, Latest State. Be concrete and concise. Do not invent facts."@
}

/// The request for a summary.
pub open spec fn summary_request(
    archive_ref: Seq<char>,
    trigger: CompactionTrigger,
    history: Seq<MessageView>,
) -> Seq<char> {
    "Archive reference: "@ + archive_ref + "\nTrigger: "@ + trigger_text(trigger)
        + "\nSummarize the transcript below so another LLM call can continue the session without needing the full transcript.\n\n"@
        + text::joined(transcript_blocks(history), "\n\n"@)
}

/// The messages that ask the model for a summary.
pub fn summarizer_messages(
    archive_ref: &str,
    trigger: CompactionTrigger,
    history: &Vec<Message>,
) -> (r: Vec<Message>)
    ensures
        r.deep_view() == seq![
            text_message(Role::System, summary_instructions()),
            text_message(Role::User, summary_request(archive_ref@, trigger, history.deep_view())),
        ],
{
    let transcript = render_transcript(history);
    let system = "You summarize archived coding-agent conversations for future continuation. Return plain text with these sections exactly: Current Goal, Constraints, Tool Findings, Open Threads, Latest State. Be concrete and concise. Do not invent facts.".to_owned();
    let mut request = "Archive reference: ".to_owned();
    request.append(archive_ref);
    request.append("\nTrigger: ");
    request.append(trigger.as_str());
    request.append("\nSummarize the transcript below so another LLM call can continue the session without needing the full transcript.\n\n");
    request.append(transcript.as_str());
    let mut r: Vec<Message> = Vec::new();
    r.push(Message::system(system));
    r.push(Message::user(request));
    assert(r.deep_view() =~= seq![r@[0].deep_view(), r@[1].deep_view()]);
    r
}

/// The message that stands for what was summarized.
pub open spec fn compaction_message(summary: Seq<char>, archive_ref: Seq<char>) -> MessageView {
    text_message(
        Role::Assistant,
        "Context compacted from archive `"@ + archive_ref + "`.\n\n"@ + summary,
    )
}

/// A compacted history: the system prompt, if the history begins with one, the summary,
/// and the messages that stay.
pub open spec fn compacted(
    history: Seq<MessageView>,
    summary: Seq<char>,
    archive_ref: Seq<char>,
    tail: Seq<MessageView>,
) -> Seq<MessageView> {
    (if history.len() > 0 && history[0].role == Role::System {
        seq![history[0]]
    } else {
        Seq::empty()
    }) + seq![compaction_message(summary, archive_ref)] + tail
}

/// A compacted history.
pub fn compacted_history(
    history: &Vec<Message>,
    summary: &str,
    archive_ref: &str,
    tail: &Vec<Message>,
) -> (r: Vec<Message>)
    ensures
        r.deep_view() == compacted(
            history.deep_view(),
            summary@,
            archive_ref@,
            tail.deep_view(),
        ),
{
    let mut r: Vec<Message> = Vec::new();
    if history.len() > 0 && history[0].role == Role::System {
        r.push(history[0].clone());
    }
    let mut note = "Context compacted from archive `".to_owned();
    note.append(archive_ref);
    note.append("`.\n\n");
    note.append(summary);
    let ghost front = r.deep_view();
    r.push(Message::assistant(note));
    let ghost head = r.deep_view();
    assert(head =~= front + seq![compaction_message(summary@, archive_ref@)]);
    let mut kept = copy_messages(tail, 0, tail.len());
    assert(kept.deep_view() =~= tail.deep_view());
    let ghost kept_view = kept.deep_view();
    r.append(&mut kept);
    assert(r.deep_view() =~= head + kept_view);
    assert(front =~= (if history.deep_view().len() > 0 && history.deep_view()[0].role
        == Role::System {
        seq![history.deep_view()[0]]
    } else {
        Seq::empty()
    }));
    r
}

/// The plan whose summary the model wrote: everything in front of the live tail goes.
pub fn legacy_compaction_plan(history: &Vec<Message>, summary: String) -> (r: CompactionPlan)
    ensures
        r.source == CompactionSource::LegacySummarizer,
        r.summary@ == summary@,
        r.tail_start == tail_from(history.deep_view()),
        r.tail_start <= history@.len(),
{
    CompactionPlan {
        source: CompactionSource::LegacySummarizer,
        summary,
        tail_start: live_tail_from(history),
    }
}

/// The plan that the session memory allows: its summary reaches up to `summarized`, which
/// is what the session last heard of it, and does not reach into the live tail.
pub open spec fn memory_plan(
    history: Seq<MessageView>,
    known: Option<usize>,
    snapshot: CompactionSnapshotView,
) -> Option<CompactionPlanView> {
    let summarized = snapshot.last_summarized_message_index;
    let start = if summarized == usize::MAX {
        history.len() as int
    } else {
        summarized + 1
    };
    if start > tail_from(history) {
        None
    } else if known matches Some(index) && index != summarized {
        None
    } else {
        Some(
            CompactionPlanView {
                source: CompactionSource::SessionMemory,
                summary: text::trimmed(snapshot.summary_markdown),
                tail_start: start as usize,
            },
        )
    }
}

/// The plan that the session memory allows, if it does.
pub fn compaction_plan_from_snapshot(
    last_summarized_message_index: Option<usize>,
    history: &Vec<Message>,
    snapshot: &CompactionSnapshot,
) -> (r: Option<CompactionPlan>)
    ensures
        r.deep_view() == memory_plan(
            history.deep_view(),
            last_summarized_message_index,
            snapshot.deep_view(),
        ),
        r matches Some(plan) ==> plan.tail_start <= tail_from(history.deep_view())
            <= history@.len(),
{
    let live = live_tail_from(history);
    let tail_start: usize = match snapshot.last_summarized_message_index.checked_add(1) {
        Some(start) => start,
        None => history.len(),
    };
    if tail_start > history.len() || tail_start > live {
        return None;
    }
    if let Some(index) = last_summarized_message_index {
        if index != snapshot.last_summarized_message_index {
            return None;
        }
    }
    Some(
        CompactionPlan {
            source: CompactionSource::SessionMemory,
            summary: text::trim(snapshot.summary_markdown.as_str()),
            tail_start,
        },
    )
}

/// The history after a plan was carried out.
pub fn apply_compaction_plan(
    history: &Vec<Message>,
    archive_ref: &str,
    plan: &CompactionPlan,
) -> (r: Vec<Message>)
    requires
        plan.tail_start <= history@.len(),
    ensures
        r.deep_view() == compacted(
            history.deep_view(),
            plan.summary@,
            archive_ref@,
            history.deep_view().skip(plan.tail_start as int),
        ),
{
    let tail = copy_messages(history, plan.tail_start, history.len());
    assert(tail.deep_view() =~= history.deep_view().skip(plan.tail_start as int));
    compacted_history(history, plan.summary.as_str(), archive_ref, &tail)
}

/// Whatever plan is carried out, the live tail is still the end of the history.
pub proof fn law_compaction_keeps_the_live_tail(
    history: Seq<MessageView>,
    summary: Seq<char>,
    archive_ref: Seq<char>,
    tail_start: int,
)
    requires
        0 <= tail_start <= tail_from(history),
    ensures
        ({
            let live = history.skip(tail_from(history));
            let after = compacted(history, summary, archive_ref, history.skip(tail_start));
            after.len() >= live.len() && after.skip(after.len() - live.len()) == live
        }),
{
    lemma_tail_from(history);
    let live = history.skip(tail_from(history));
    let after = compacted(history, summary, archive_ref, history.skip(tail_start));
    assert(after.skip(after.len() - live.len()) =~= live);
}

/// An archived tool result.
pub fn render_archived_tool_result(
    tool_name: &str,
    tool_use_id: &str,
    is_error: bool,
    output: &str,
    archive_ref: &str,
) -> (r: String)
    ensures
        r@ == archived_result(tool_name@, tool_use_id@, is_error, output@, archive_ref@),
{
    let chars = text::chars_of(output);
    let mut r = render_archive_header(tool_name, tool_use_id, is_error, chars.len(), archive_ref);
    if chars.len() > TOOL_RESULT_PREVIEW_HEAD_CHARS {
        let mut shown = text::text_between(&chars, 0, TOOL_RESULT_PREVIEW_HEAD_CHARS);
        assert(shown@ =~= output@.take(TOOL_RESULT_PREVIEW_HEAD_CHARS as int));
        shown.append("\n\n[... elided ...]\n\n");
        let tail = text::text_between(
            &chars,
            chars.len() - TOOL_RESULT_PREVIEW_TAIL_CHARS,
            chars.len(),
        );
        assert(tail@ =~= text::last_chars(output@, TOOL_RESULT_PREVIEW_TAIL_CHARS as nat));
        shown.append(tail.as_str());
        r.append(shown.as_str());
    } else {
        r.append(output);
    }
    r
}

/// The line in front of an archived tool result.
fn render_archive_header(
    tool_name: &str,
    tool_use_id: &str,
    is_error: bool,
    length: usize,
    archive_ref: &str,
) -> (r: String)
    ensures
        r@ == archive_header(tool_name@, tool_use_id@, is_error, length as nat, archive_ref@),
{
    let mut r = "[tool result archived:".to_owned();
    r.append(" ");
    r.append(tool_name);
    r.append(", ");
    r.append(status_label(is_error));
    r.append(", ");
    let length = text::decimal(length as u64);
    r.append(length.as_str());
    r.append(" chars, id=");
    r.append(tool_use_id);
    r.append(", archive=");
    r.append(archive_ref);
    r.append("]\n");
    r
}

/// A tool result that is archived when it arrives.
pub fn render_initial_archived_tool_result(
    tool_name: &str,
    tool_use_id: &str,
    is_error: bool,
    output: &str,
    archive_ref: &str,
) -> (r: String)
    ensures
        r@ == initial_archived_result(tool_name@, tool_use_id@, is_error, output@, archive_ref@),
{
    let total_chars = output.unicode_len();
    let mut lines = text::lines(output);
    let total_lines = lines.len();
    let ghost all = lines.deep_view();
    if total_lines > INITIAL_TOOL_RESULT_PREVIEW_LINES {
        lines.truncate(INITIAL_TOOL_RESULT_PREVIEW_LINES);
        assert(lines.deep_view() =~= all.take(INITIAL_TOOL_RESULT_PREVIEW_LINES as int));
    }
    let shown = text::join(&lines, "\n");
    assert(shown@ == preview(output@));
    let mut r = render_archive_header(tool_name, tool_use_id, is_error, total_chars, archive_ref);
    r.append(shown.as_str());
    if total_lines > INITIAL_TOOL_RESULT_PREVIEW_LINES {
        let mut notice = "\n\n[... omitted ".to_owned();
        let omitted = text::decimal((total_lines - INITIAL_TOOL_RESULT_PREVIEW_LINES) as u64);
        notice.append(omitted.as_str());
        notice.append(" more line(s); full tool result archived at ");
        notice.append(archive_ref);
        notice.append(" ...]");
        r.append(notice.as_str());
    } else if total_chars > shown.as_str().unicode_len() {
        let mut notice = "\n\n[... remaining content omitted; full tool result archived at ".to_owned();
        notice.append(archive_ref);
        notice.append(" ...]");
        r.append(notice.as_str());
    } else {
        assert(r@ + Seq::<char>::empty() =~= r@);
    }
    r
}

/// Whether a character may stand in the name of an archive.
pub open spec fn is_safe_char(c: char) -> bool {
    let n = c as u32;
    97 <= n <= 122 || 65 <= n <= 90 || 48 <= n <= 57 || c == '-' || c == '_'
}

/// An identifier as part of a file name: every other character becomes an underscore.
pub open spec fn safe_name(id: Seq<char>) -> Seq<char> {
    Seq::new(id.len(), |i: int| if is_safe_char(id[i]) { id[i] } else { '_' })
}

/// The name of the file in which a tool result is archived.
pub fn archived_result_file_name(timestamp: &str, tool_use_id: &str) -> (r: String)
    ensures
        r@ == timestamp@ + "-"@ + safe_name(tool_use_id@) + ".txt"@,
{
    let chars = text::chars_of(tool_use_id);
    let mut safe = String::new();
    let ghost wanted = safe_name(tool_use_id@);
    let mut i: usize = 0;
    while i < chars.len()
        invariant
            i <= chars@.len(),
            chars@ == tool_use_id@,
            wanted == safe_name(tool_use_id@),
            safe@ == wanted.take(i as int),
        decreases chars@.len() - i,
    {
        let c: char = chars[i];
        let n: u32 = c as u32;
        if (97 <= n && n <= 122) || (65 <= n && n <= 90) || (48 <= n && n <= 57) || c == '-' || c
            == '_' {
            safe.push(c);
        } else {
            safe.push('_');
        }
        assert(wanted.take(i + 1) =~= wanted.take(i as int).push(wanted[i as int]));
        i = i + 1;
    }
    assert(wanted.take(i as int) =~= wanted);
    let mut r = timestamp.to_owned();
    r.append("-");
    r.append(safe.as_str());
    r.append(".txt");
    r
}

/// A number with at least four digits.
pub open spec fn four_digits(n: nat) -> Seq<char> {
    if n < 10 {
        "000"@ + text::digits(n)
    } else if n < 100 {
        "00"@ + text::digits(n)
    } else if n < 1000 {
        "0"@ + text::digits(n)
    } else {
        text::digits(n)
    }
}

/// The name of the file in which a transcript is archived.
pub fn archived_transcript_file_name(generation: u64) -> (r: String)
    ensures
        r@ == four_digits(generation as nat) + ".json"@,
{
    let number = text::decimal(generation);
    let mut r = if generation < 10 {
        "000".to_owned()
    } else if generation < 100 {
        "00".to_owned()
    } else if generation < 1000 {
        "0".to_owned()
    } else {
        String::new()
    };
    r.append(number.as_str());
    assert(r@ =~= four_digits(generation as nat));
    r.append(".json");
    r
}

/// The tool result at a position, if it has to be archived: its identifier and its text.
pub fn result_to_archive(history: &Vec<Message>, index: usize) -> (r: Option<(String, String)>)
    requires
        index < history@.len(),
    ensures
        match r {
            Some((tool_use_id, output)) => {
                &&& needs_archiving(history.deep_view(), index as int)
                &&& tool_use_id@ == history.deep_view()[index as int].content->tool_use_id
                &&& output@ == history.deep_view()[index as int].content->output
            },
            None => !needs_archiving(history.deep_view(), index as int),
        },
{
    let live = live_tail_from(history);
    assert(history.deep_view()[index as int] == history@[index as int].deep_view());
    match &history[index].content {
        MessageContent::ToolResult { tool_use_id, output, .. } => {
            if index < live && !text::starts_with(output.as_str(), "[tool result archived:") {
                Some((tool_use_id.clone(), output.clone()))
            } else {
                None
            }
        },
        _ => None,
    }
}

/// The history with its old tool results replaced by references to their archives.
pub fn replace_archived_tool_results(
    history: &Vec<Message>,
    archives: &Vec<Option<String>>,
) -> (r: Vec<Message>)
    requires
        archives@.len() == history@.len(),
    ensures
        r.deep_view() == archived_history(history.deep_view(), archives.deep_view()),
{
    let mut r: Vec<Message> = Vec::new();
    let ghost all = history.deep_view();
    let ghost refs = archives.deep_view();
    let ghost wanted = archived_history(all, refs);
    let mut i: usize = 0;
    while i < history.len()
        invariant
            i <= history@.len(),
            archives@.len() == history@.len(),
            all == history.deep_view(),
            refs == archives.deep_view(),
            wanted == archived_history(all, refs),
            r.deep_view() == wanted.take(i as int),
        decreases history@.len() - i,
    {
        let ghost before = r.deep_view();
        let message = &history[i];
        assert(all[i as int] == message.deep_view());
        assert(refs[i as int] == archives@[i as int].deep_view());
        let new_message = match (&message.content, &archives[i]) {
            (
                MessageContent::ToolResult { tool_use_id, output, is_error },
                Some(archive_ref),
            ) => {
                if result_to_archive(history, i).is_some() {
                    let name = match find_tool_name(history, tool_use_id.as_str()) {
                        Some(name) => name,
                        None => "unknown".to_owned(),
                    };
                    Message {
                        role: message.role,
                        content: MessageContent::ToolResult {
                            tool_use_id: tool_use_id.clone(),
                            output: render_archived_tool_result(
                                name.as_str(),
                                tool_use_id.as_str(),
                                *is_error,
                                output.as_str(),
                                archive_ref.as_str(),
                            ),
                            is_error: *is_error,
                        },
                    }
                } else {
                    message.clone()
                }
            },
            _ => message.clone(),
        };
        assert(new_message.deep_view() == wanted[i as int]);
        r.push(new_message);
        assert(r.deep_view() =~= before.push(wanted[i as int]));
        assert(wanted.take(i + 1) =~= wanted.take(i as int).push(wanted[i as int]));
        i = i + 1;
    }
    assert(wanted.take(i as int) =~= wanted);
    r
}

/// Whether a tool result is kept in full.
pub fn fits_in_history(output: &str) -> (r: bool)
    ensures
        r == (output@.len() <= MAX_TOOL_RESULT_CHARS_IN_HISTORY),
{
    output.unicode_len() <= MAX_TOOL_RESULT_CHARS_IN_HISTORY
}

/// A tool result as it goes into the history: in full, or a preview with a reference to its
/// archive.
pub open spec fn result_for_history(
    tool_name: Seq<char>,
    tool_use_id: Seq<char>,
    is_error: bool,
    output: Seq<char>,
    archive_ref: Seq<char>,
) -> Seq<char> {
    if output.len() <= MAX_TOOL_RESULT_CHARS_IN_HISTORY {
        output
    } else {
        initial_archived_result(tool_name, tool_use_id, is_error, output, archive_ref)
    }
}

/// A tool result as it goes into the history. The archive plays no part if the result is
/// kept in full.
pub fn prepare_tool_result_for_history(
    tool_use_id: &str,
    tool_name: &str,
    tool_output: &str,
    is_error: bool,
    archive_ref: &str,
) -> (r: String)
    ensures
        r@ == result_for_history(
            tool_name@,
            tool_use_id@,
            is_error,
            tool_output@,
            archive_ref@,
        ),
{
    if fits_in_history(tool_output) {
        tool_output.to_owned()
    } else {
        render_initial_archived_tool_result(
            tool_name,
            tool_use_id,
            is_error,
            tool_output,
            archive_ref,
        )
    }
}

} // verus!
