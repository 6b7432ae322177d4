//! Tool calls: which may run at the same time, and what comes back from them.

use vstd::prelude::*;
use vstd::string::*;

use crate::arguments::{Arguments, ArgumentsView};
use crate::channel::{ToolOutcome, ToolOutcomeView};
use crate::message::{PendingToolCall, PendingToolCallView};
use crate::text;

verus! {

broadcast use vstd::seq::group_seq_axioms;

/// A tool that a session can run.
#[derive(Debug)]
pub struct ToolInfo {
    pub name: String,
    /// Whether it may ask the user.
    pub interactive: bool,
    pub read_only: bool,
    pub idempotent: bool,
}

/// The model of [`ToolInfo`].
#[verifier::ext_equal]
pub struct ToolInfoView {
    pub name: Seq<char>,
    pub interactive: bool,
    pub read_only: bool,
    pub idempotent: bool,
}

impl DeepView for ToolInfo {
    type V = ToolInfoView;

    open spec fn deep_view(&self) -> ToolInfoView {
        ToolInfoView {
            name: self.name.deep_view(),
            interactive: self.interactive,
            read_only: self.read_only,
            idempotent: self.idempotent,
        }
    }
}

impl Clone for ToolInfo {
    fn clone(&self) -> (r: Self)
        ensures
            r.deep_view() == self.deep_view(),
    {
        ToolInfo {
            name: self.name.clone(),
            interactive: self.interactive,
            read_only: self.read_only,
            idempotent: self.idempotent,
        }
    }
}

/// A tool call that has ended.
#[derive(Debug)]
pub struct CompletedToolCall {
    /// The position of the call among those that the model asked for.
    pub index: usize,
    pub tool_use_id: String,
    pub tool_name: String,
    pub arguments: Arguments,
    pub result: ToolOutcome,
    pub duration_us: u64,
}

/// The model of [`CompletedToolCall`].
#[verifier::ext_equal]
pub struct CompletedToolCallView {
    pub index: usize,
    pub tool_use_id: Seq<char>,
    pub tool_name: Seq<char>,
    pub arguments: ArgumentsView,
    pub result: ToolOutcomeView,
    pub duration_us: u64,
}

impl DeepView for CompletedToolCall {
    type V = CompletedToolCallView;

    open spec fn deep_view(&self) -> CompletedToolCallView {
        CompletedToolCallView {
            index: self.index,
            tool_use_id: self.tool_use_id.deep_view(),
            tool_name: self.tool_name.deep_view(),
            arguments: self.arguments.deep_view(),
            result: self.result.deep_view(),
            duration_us: self.duration_us,
        }
    }
}

impl Clone for CompletedToolCall {
    fn clone(&self) -> (r: Self)
        ensures
            r.deep_view() == self.deep_view(),
    {
        CompletedToolCall {
            index: self.index,
            tool_use_id: self.tool_use_id.clone(),
            tool_name: self.tool_name.clone(),
            arguments: self.arguments.clone(),
            result: self.result.clone(),
            duration_us: self.duration_us,
        }
    }
}

/// What running a tool gave.
#[derive(Debug)]
pub enum ToolReturn {
    /// The tool ran to its end.
    Output { content: String, is_error: bool },
    /// The tool noticed that it was cancelled.
    Cancelled,
    /// The tool failed.
    Failed { error: String },
    /// The task of the tool panicked.
    Panicked { error: String },
}

/// The model of [`ToolReturn`].
#[verifier::ext_equal]
pub enum ToolReturnView {
    Output { content: Seq<char>, is_error: bool },
    Cancelled,
    Failed { error: Seq<char> },
    Panicked { error: Seq<char> },
}

impl DeepView for ToolReturn {
    type V = ToolReturnView;

    open spec fn deep_view(&self) -> ToolReturnView {
        match *self {
            ToolReturn::Output { content, is_error } => ToolReturnView::Output {
                content: content.deep_view(),
                is_error,
            },
            ToolReturn::Cancelled => ToolReturnView::Cancelled,
            ToolReturn::Failed { error } => ToolReturnView::Failed { error: error.deep_view() },
            ToolReturn::Panicked { error } => ToolReturnView::Panicked { error: error.deep_view() },
        }
    }
}

/// The outcome of a tool call whose tool has returned.
pub open spec fn returned_outcome(returned: ToolReturnView) -> ToolOutcomeView {
    match returned {
        ToolReturnView::Output { content, is_error } => if is_error {
            ToolOutcomeView::Error { message: content }
        } else {
            ToolOutcomeView::Success { output: content }
        },
        ToolReturnView::Cancelled => ToolOutcomeView::Cancelled,
        ToolReturnView::Failed { error } => ToolOutcomeView::Error { message: error },
        ToolReturnView::Panicked { error } => ToolOutcomeView::Error {
            message: "tool task panicked: "@ + error,
        },
    }
}

/// The outcome of a tool call whose tool has returned.
pub fn tool_outcome(returned: ToolReturn) -> (r: ToolOutcome)
    ensures
        r.deep_view() == returned_outcome(returned.deep_view()),
{
    match returned {
        ToolReturn::Output { content, is_error } => {
            if is_error {
                ToolOutcome::Error { message: content }
            } else {
                ToolOutcome::Success { output: content }
            }
        },
        ToolReturn::Cancelled => ToolOutcome::Cancelled,
        ToolReturn::Failed { error } => ToolOutcome::Error { message: error },
        ToolReturn::Panicked { error } => {
            let mut message = "tool task panicked: ".to_owned();
            message.append(error.as_str());
            ToolOutcome::Error { message }
        },
    }
}

/// The tool that was last registered under a name.
pub open spec fn registered(registry: Seq<ToolInfoView>, name: Seq<char>) -> Option<ToolInfoView>
    decreases registry.len(),
{
    if registry.len() == 0 {
        None
    } else if registry.last().name == name {
        Some(registry.last())
    } else {
        registered(registry.drop_last(), name)
    }
}

/// The tool that was last registered under a name.
pub fn find_tool<'a>(registry: &'a Vec<ToolInfo>, name: &str) -> (r: Option<&'a ToolInfo>)
    ensures
        r.deep_view() == registered(registry.deep_view(), name@),
{
    let ghost all = registry.deep_view();
    let mut i: usize = registry.len();
    assert(all.take(i as int) =~= all);
    while i > 0
        invariant
            i <= registry@.len(),
            all == registry.deep_view(),
            registered(all, name@) == registered(all.take(i as int), name@),
        decreases i,
    {
        assert(all.take(i as int).drop_last() =~= all.take(i - 1));
        assert(all.take(i as int).last() == all[i - 1]);
        if text::same(registry[i - 1].name.as_str(), name) {
            return Some(&registry[i - 1]);
        }
        i = i - 1;
    }
    assert(all.take(0) =~= Seq::empty());
    None
}

/// Whether a call may run beside others: its tool is `find` or `read_file`, is registered,
/// does not ask the user, only reads, and may be repeated.
pub open spec fn eligible(registry: Seq<ToolInfoView>, call: PendingToolCallView) -> bool {
    &&& call.tool_name == "find"@ || call.tool_name == "read_file"@
    &&& registered(registry, call.tool_name) matches Some(tool) && !tool.interactive
        && tool.read_only && tool.idempotent
}

/// Whether all of more than one call may run beside each other.
pub open spec fn batch_eligible(
    registry: Seq<ToolInfoView>,
    calls: Seq<PendingToolCallView>,
) -> bool {
    calls.len() > 1 && forall|i: int| 0 <= i < calls.len() ==> eligible(registry, #[trigger] calls[i])
}

/// Whether a call may run beside others.
pub fn tool_call_is_concurrency_eligible(
    registry: &Vec<ToolInfo>,
    call: &PendingToolCall,
) -> (r: bool)
    ensures
        r == eligible(registry.deep_view(), call.deep_view()),
{
    if !text::same(call.tool_name.as_str(), "find") && !text::same(
        call.tool_name.as_str(),
        "read_file",
    ) {
        return false;
    }
    match find_tool(registry, call.tool_name.as_str()) {
        Some(tool) => !tool.interactive && tool.read_only && tool.idempotent,
        None => false,
    }
}

/// Whether all of more than one call may run beside each other.
pub fn tool_batch_is_concurrency_eligible(
    registry: &Vec<ToolInfo>,
    calls: &Vec<PendingToolCall>,
) -> (r: bool)
    ensures
        r == batch_eligible(registry.deep_view(), calls.deep_view()),
{
    if calls.len() <= 1 {
        return false;
    }
    let mut i: usize = 0;
    while i < calls.len()
        invariant
            i <= calls@.len(),
            forall|j: int|
                0 <= j < i ==> eligible(registry.deep_view(), #[trigger] calls.deep_view()[j]),
        decreases calls@.len() - i,
    {
        assert(calls.deep_view()[i as int] == calls@[i as int].deep_view());
        if !tool_call_is_concurrency_eligible(registry, &calls[i]) {
            return false;
        }
        i = i + 1;
    }
    true
}

/// The number of calls at the beginning whose eligibility is `flag`.
pub open spec fn run_length(
    registry: Seq<ToolInfoView>,
    calls: Seq<PendingToolCallView>,
    flag: bool,
) -> nat
    decreases calls.len(),
{
    if calls.len() == 0 || eligible(registry, calls[0]) != flag {
        0
    } else {
        1 + run_length(registry, calls.drop_first(), flag)
    }
}

pub proof fn lemma_run_length(
    registry: Seq<ToolInfoView>,
    calls: Seq<PendingToolCallView>,
    flag: bool,
)
    ensures
        run_length(registry, calls, flag) <= calls.len(),
        forall|i: int|
            0 <= i < run_length(registry, calls, flag) ==> eligible(registry, #[trigger] calls[i])
                == flag,
        run_length(registry, calls, flag) < calls.len() ==> eligible(
            registry,
            calls[run_length(registry, calls, flag) as int],
        ) != flag,
    decreases calls.len(),
{
    if calls.len() > 0 && eligible(registry, calls[0]) == flag {
        lemma_run_length(registry, calls.drop_first(), flag);
        assert forall|i: int| 0 <= i < run_length(registry, calls, flag) implies eligible(
            registry,
            #[trigger] calls[i],
        ) == flag by {
            if i > 0 {
                assert(calls.drop_first()[i - 1] == calls[i]);
            }
        }
    }
}

/// The calls in order, in the longest runs of calls that may run beside others and of
/// calls that may not.
pub open spec fn partition(
    registry: Seq<ToolInfoView>,
    calls: Seq<PendingToolCallView>,
) -> Seq<(bool, Seq<PendingToolCallView>)>
    decreases calls.len(),
{
    if calls.len() == 0 {
        Seq::empty()
    } else {
        proof {
            lemma_run_length(registry, calls, eligible(registry, calls[0]));
        }
        let flag = eligible(registry, calls[0]);
        let n = run_length(registry, calls, flag) as int;
        seq![(flag, calls.take(n))] + partition(registry, calls.skip(n))
    }
}

/// All calls of a partition, one run after another.
pub open spec fn flattened(parts: Seq<(bool, Seq<PendingToolCallView>)>) -> Seq<
    PendingToolCallView,
>
    decreases parts.len(),
{
    if parts.len() == 0 {
        Seq::empty()
    } else {
        parts[0].1 + flattened(parts.drop_first())
    }
}

/// A partition holds all calls in their order, no run is empty, every call is in a run of
/// its kind, and neighbouring runs are of different kinds.
pub proof fn law_partition(registry: Seq<ToolInfoView>, calls: Seq<PendingToolCallView>)
    ensures
        flattened(partition(registry, calls)) == calls,
        forall|i: int|
            0 <= i < partition(registry, calls).len() ==> (#[trigger] partition(
                registry,
                calls,
            )[i]).1.len() > 0,
        forall|i: int, j: int|
            0 <= i < partition(registry, calls).len() && 0 <= j < partition(
                registry,
                calls,
            )[i].1.len() ==> eligible(registry, #[trigger] partition(registry, calls)[i].1[j])
                == partition(registry, calls)[i].0,
        forall|i: int|
            0 <= i < partition(registry, calls).len() - 1 ==> (#[trigger] partition(
                registry,
                calls,
            )[i]).0 != partition(registry, calls)[i + 1].0,
    decreases calls.len(),
{
    if calls.len() > 0 {
        let flag = eligible(registry, calls[0]);
        let n = run_length(registry, calls, flag) as int;
        lemma_run_length(registry, calls, flag);
        let rest = calls.skip(n);
        law_partition(registry, rest);
        let parts = partition(registry, calls);
        let more = partition(registry, rest);
        assert(parts.drop_first() =~= more);
        assert(calls.take(n) + rest =~= calls);
        assert forall|i: int| 0 <= i < parts.len() implies (#[trigger] parts[i]).1.len() > 0 by {
            if i > 0 {
                assert(parts[i] == more[i - 1]);
            }
        }
        assert forall|i: int, j: int|
            0 <= i < parts.len() && 0 <= j < parts[i].1.len() implies eligible(
            registry,
            #[trigger] parts[i].1[j],
        ) == parts[i].0 by {
            if i == 0 {
                assert(parts[0].1[j] == calls[j]);
            } else {
                assert(parts[i] == more[i - 1]);
            }
        }
        assert forall|i: int| 0 <= i < parts.len() - 1 implies (#[trigger] parts[i]).0 != parts[i
            + 1].0 by {
            if i == 0 {
                assert(rest.len() > 0);
                assert(rest[0] == calls[n]);
                assert(parts[1] == more[0]);
            } else {
                assert(parts[i] == more[i - 1]);
                assert(parts[i + 1] == more[i]);
            }
        }
    }
}

/// A batch in which every call may run beside the others is one run.
pub proof fn law_eligible_batch_is_one_run(
    registry: Seq<ToolInfoView>,
    calls: Seq<PendingToolCallView>,
)
    requires
        batch_eligible(registry, calls),
    ensures
        partition(registry, calls) == seq![(true, calls)],
{
    lemma_run_length(registry, calls, true);
    let n = run_length(registry, calls, true) as int;
    if n < calls.len() {
        assert(eligible(registry, calls[n]));
    }
    assert(eligible(registry, calls[0]));
    assert(calls.take(n) =~= calls);
    assert(calls.skip(n) =~= Seq::empty());
    assert(partition(registry, calls.skip(n)) =~= Seq::empty());
    assert(partition(registry, calls) =~= seq![(true, calls)]);
}

/// The calls in order, in the longest runs of one kind.
pub fn partition_tool_calls_by_concurrency<'a>(
    registry: &Vec<ToolInfo>,
    calls: &'a Vec<PendingToolCall>,
) -> (r: Vec<(bool, &'a [PendingToolCall])>)
    ensures
        r.deep_view() == partition(registry.deep_view(), calls.deep_view()),
{
    let mut r: Vec<(bool, &'a [PendingToolCall])> = Vec::new();
    let ghost reg = registry.deep_view();
    let ghost all = calls.deep_view();
    let mut start: usize = 0;
    proof {
        assert(all.skip(0) =~= all);
        assert(r.deep_view() + partition(reg, all) =~= partition(reg, all));
    }
    while start < calls.len()
        invariant
            start <= calls@.len(),
            reg == registry.deep_view(),
            all == calls.deep_view(),
            r.deep_view() + partition(reg, all.skip(start as int)) == partition(reg, all),
        decreases calls@.len() - start,
    {
        let ghost rest = all.skip(start as int);
        assert(rest[0] == calls@[start as int].deep_view());
        let is_concurrent = tool_call_is_concurrency_eligible(registry, &calls[start]);
        let mut end: usize = start + 1;
        assert(rest.drop_first() =~= all.skip(end as int));
        while end < calls.len() && tool_call_is_concurrency_eligible(registry, &calls[end])
            == is_concurrent
            invariant
                start < end <= calls@.len(),
                reg == registry.deep_view(),
                all == calls.deep_view(),
                rest == all.skip(start as int),
                run_length(reg, rest, is_concurrent) == (end - start) + run_length(
                    reg,
                    all.skip(end as int),
                    is_concurrent,
                ),
            decreases calls@.len() - end,
        {
            assert(all.skip(end as int)[0] == calls@[end as int].deep_view());
            assert(all.skip(end as int).drop_first() =~= all.skip(end + 1));
            end = end + 1;
        }
        proof {
            if end < calls@.len() {
                assert(all.skip(end as int)[0] == calls@[end as int].deep_view());
            }
            assert(run_length(reg, all.skip(end as int), is_concurrent) == 0);
        }
        let ghost before = r.deep_view();
        let part = vstd::slice::slice_subrange(calls.as_slice(), start, end);
        assert(part.deep_view() =~= rest.take((end - start) as int));
        r.push((is_concurrent, part));
        assert(r.deep_view() =~= before.push((is_concurrent, rest.take((end - start) as int))));
        assert(rest.skip((end - start) as int) =~= all.skip(end as int));
        assert(r.deep_view() + partition(reg, all.skip(end as int)) =~= before + partition(
            reg,
            rest,
        ));
        start = end;
    }
    assert(all.skip(start as int) =~= Seq::empty());
    assert(r.deep_view() + Seq::<(bool, Seq<PendingToolCallView>)>::empty() =~= r.deep_view());
    r
}

/// Whether a call with that identifier is among the calls.
pub open spec fn has_id(calls: Seq<PendingToolCallView>, tool_use_id: Seq<char>) -> bool {
    exists|i: int| 0 <= i < calls.len() && (#[trigger] calls[i]).tool_use_id == tool_use_id
}

/// The calls without those whose identifier came before.
pub open spec fn deduplicated(calls: Seq<PendingToolCallView>) -> Seq<PendingToolCallView>
    decreases calls.len(),
{
    if calls.len() == 0 {
        calls
    } else if has_id(calls.drop_last(), calls.last().tool_use_id) {
        deduplicated(calls.drop_last())
    } else {
        deduplicated(calls.drop_last()).push(calls.last())
    }
}

/// Deduplication keeps every identifier, once, and calls with different identifiers are
/// kept as they are.
pub proof fn law_deduplicated(calls: Seq<PendingToolCallView>)
    ensures
        forall|id: Seq<char>| #[trigger] has_id(deduplicated(calls), id) <==> has_id(calls, id),
        forall|i: int, j: int|
            0 <= i < j < deduplicated(calls).len() ==> (#[trigger] deduplicated(
                calls,
            )[i]).tool_use_id != (#[trigger] deduplicated(calls)[j]).tool_use_id,
        deduplicated(calls).len() <= calls.len(),
        (forall|i: int, j: int|
            0 <= i < j < calls.len() ==> (#[trigger] calls[i]).tool_use_id != (
            #[trigger] calls[j]).tool_use_id) ==> deduplicated(calls) == calls,
    decreases calls.len(),
{
    if calls.len() > 0 {
        let front = calls.drop_last();
        let last = calls.last();
        law_deduplicated(front);
        let d = deduplicated(calls);
        let f = deduplicated(front);
        assert forall|id: Seq<char>| #[trigger] has_id(d, id) <==> has_id(calls, id) by {
            if has_id(calls, id) {
                let i = choose|i: int| 0 <= i < calls.len() && calls[i].tool_use_id == id;
                if i < front.len() {
                    assert(front[i].tool_use_id == id);
                    assert(has_id(front, id));
                    assert(has_id(f, id));
                    let k = choose|k: int| 0 <= k < f.len() && f[k].tool_use_id == id;
                    assert(d[k].tool_use_id == id);
                } else if has_id(front, last.tool_use_id) {
                    assert(has_id(f, id));
                } else {
                    assert(d[d.len() - 1].tool_use_id == id);
                }
            }
            if has_id(d, id) {
                let k = choose|k: int| 0 <= k < d.len() && d[k].tool_use_id == id;
                if k < f.len() {
                    assert(f[k].tool_use_id == id);
                    assert(has_id(f, id));
                    assert(has_id(front, id));
                    let i = choose|i: int| 0 <= i < front.len() && front[i].tool_use_id == id;
                    assert(calls[i].tool_use_id == id);
                } else {
                    assert(calls[calls.len() - 1].tool_use_id == id);
                }
            }
        }
        assert forall|i: int, j: int| 0 <= i < j < d.len() implies (
        #[trigger] d[i]).tool_use_id != (#[trigger] d[j]).tool_use_id by {
            if j == f.len() {
                if d[i].tool_use_id == last.tool_use_id {
                    assert(f[i].tool_use_id == last.tool_use_id);
                    assert(has_id(f, last.tool_use_id));
                }
            } else {
                assert(f[i].tool_use_id != f[j].tool_use_id);
            }
        }
        if forall|i: int, j: int|
            0 <= i < j < calls.len() ==> (#[trigger] calls[i]).tool_use_id != (
            #[trigger] calls[j]).tool_use_id {
            if has_id(front, last.tool_use_id) {
                let i = choose|i: int|
                    0 <= i < front.len() && front[i].tool_use_id == last.tool_use_id;
                assert(calls[i].tool_use_id != calls[calls.len() - 1].tool_use_id);
            }
            assert forall|i: int, j: int| 0 <= i < j < front.len() implies (
            #[trigger] front[i]).tool_use_id != (#[trigger] front[j]).tool_use_id by {
                assert(calls[i].tool_use_id != calls[j].tool_use_id);
            }
            assert(front.push(last) =~= calls);
        }
    }
}

/// The calls without those whose identifier came before.
pub fn deduplicate_pending_tool_calls(calls: Vec<PendingToolCall>) -> (r: Vec<PendingToolCall>)
    ensures
        r.deep_view() == deduplicated(calls.deep_view()),
{
    let mut r: Vec<PendingToolCall> = Vec::new();
    let ghost all = calls.deep_view();
    let mut i: usize = 0;
    assert(r.deep_view() =~= all.take(0));
    while i < calls.len()
        invariant
            i <= calls@.len(),
            all == calls.deep_view(),
            r.deep_view() == deduplicated(all.take(i as int)),
        decreases calls@.len() - i,
    {
        let ghost next = all.take(i + 1);
        assert(next.drop_last() =~= all.take(i as int));
        assert(next.last() == calls@[i as int].deep_view());
        let mut known = false;
        let mut j: usize = 0;
        while j < r.len()
            invariant
                j <= r@.len(),
                i < calls@.len(),
                known == (exists|k: int|
                    0 <= k < j && (#[trigger] r.deep_view()[k]).tool_use_id
                        == calls@[i as int].tool_use_id@),
            decreases r@.len() - j,
        {
            assert(r.deep_view()[j as int] == r@[j as int].deep_view());
            if text::same(r[j].tool_use_id.as_str(), calls[i].tool_use_id.as_str()) {
                known = true;
            }
            j = j + 1;
        }
        proof {
            law_deduplicated(all.take(i as int));
            let id = calls@[i as int].tool_use_id@;
            assert(known == has_id(r.deep_view(), id));
            assert(has_id(deduplicated(all.take(i as int)), id) <==> has_id(all.take(i as int), id));
        }
        if !known {
            let ghost before = r.deep_view();
            r.push(calls[i].clone());
            assert(r.deep_view() =~= before.push(all[i as int]));
        }
        i = i + 1;
    }
    assert(all.take(i as int) =~= all);
    r
}

/// What is known of the calls of a batch that runs at the same time.
#[derive(Debug)]
pub struct ToolBatch {
    /// The results, each at the position of its call.
    pub results: Vec<Option<CompletedToolCall>>,
    /// How many calls have not ended.
    pub remaining: usize,
}

/// The results that are there, in the order of the calls.
pub open spec fn collected(results: Seq<Option<CompletedToolCallView>>) -> Seq<
    CompletedToolCallView,
>
    decreases results.len(),
{
    if results.len() == 0 {
        Seq::empty()
    } else {
        match results.last() {
            Some(completed) => collected(results.drop_last()).push(completed),
            None => collected(results.drop_last()),
        }
    }
}

impl ToolBatch {
    /// Every result stands at the position of its call.
    pub open spec fn wf(self) -> bool {
        forall|i: int|
            0 <= i < self.results.deep_view().len() ==> ((
            #[trigger] self.results.deep_view()[i]) matches Some(completed) ==> completed.index
                == i)
    }

    /// A batch of calls of which none has ended.
    pub fn start(calls: usize) -> (r: ToolBatch)
        ensures
            r.wf(),
            r.remaining == calls,
            r.results.deep_view() == Seq::new(
                calls as nat,
                |i: int| None::<CompletedToolCallView>,
            ),
    {
        let mut results: Vec<Option<CompletedToolCall>> = Vec::new();
        let mut i: usize = 0;
        while i < calls
            invariant
                i <= calls,
                results.deep_view() == Seq::new(i as nat, |k: int| None::<CompletedToolCallView>),
            decreases calls - i,
        {
            let ghost before = results.deep_view();
            results.push(None);
            assert(results.deep_view() =~= before.push(None));
            i = i + 1;
            assert(results.deep_view() =~= Seq::new(
                i as nat,
                |k: int| None::<CompletedToolCallView>,
            ));
        }
        ToolBatch { results, remaining: calls }
    }

    /// Notes the end of a call.
    pub fn record(&mut self, completed: CompletedToolCall)
        requires
            old(self).wf(),
            old(self).remaining > 0,
            completed.index < old(self).results@.len(),
        ensures
            final(self).wf(),
            final(self).remaining == old(self).remaining - 1,
            final(self).results.deep_view() == old(self).results.deep_view().update(
                completed.index as int,
                Some(completed.deep_view()),
            ),
    {
        let index: usize = completed.index;
        let ghost before = self.results.deep_view();
        let ghost view = completed.deep_view();
        self.results[index] = Some(completed);
        assert(self.results.deep_view() =~= before.update(index as int, Some(view)));
        self.remaining = self.remaining - 1;
    }

    /// Notes a call whose task panicked: it has no result.
    pub fn record_panic(&mut self)
        requires
            old(self).wf(),
            old(self).remaining > 0,
        ensures
            final(self).wf(),
            final(self).remaining == old(self).remaining - 1,
            final(self).results.deep_view() == old(self).results.deep_view(),
    {
        self.remaining = self.remaining - 1;
    }

    /// The results, in the order of the calls whatever the order in which they ended.
    pub fn finish(self) -> (r: Vec<CompletedToolCall>)
        requires
            self.wf(),
        ensures
            r.deep_view() == collected(self.results.deep_view()),
            forall|i: int, j: int|
                0 <= i < j < r.deep_view().len() ==> (#[trigger] r.deep_view()[i]).index < (
                #[trigger] r.deep_view()[j]).index,
    {
        let mut r: Vec<CompletedToolCall> = Vec::new();
        let ghost all = self.results.deep_view();
        let mut i: usize = 0;
        assert(r.deep_view() =~= collected(all.take(0)));
        while i < self.results.len()
            invariant
                i <= self.results@.len(),
                self.wf(),
                all == self.results.deep_view(),
                r.deep_view() == collected(all.take(i as int)),
                forall|a: int|
                    0 <= a < r.deep_view().len() ==> (#[trigger] r.deep_view()[a]).index < i,
                forall|a: int, b: int|
                    0 <= a < b < r.deep_view().len() ==> (#[trigger] r.deep_view()[a]).index < (
                    #[trigger] r.deep_view()[b]).index,
            decreases self.results@.len() - i,
        {
            assert(all.take(i + 1).drop_last() =~= all.take(i as int));
            assert(all.take(i + 1).last() == all[i as int]);
            assert(all[i as int] == self.results@[i as int].deep_view());
            if let Some(completed) = &self.results[i] {
                let ghost before = r.deep_view();
                r.push(completed.clone());
                assert(r.deep_view() =~= before.push(completed.deep_view()));
                assert(completed.deep_view().index == i);
            }
            i = i + 1;
        }
        assert(all.take(i as int) =~= all);
        r
    }
}

} // verus!
