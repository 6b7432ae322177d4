//! Mailboxes of sessions, and what suspended sessions wait for.

use std::collections::VecDeque;

use vstd::prelude::*;
use vstd::string::*;

use crate::arguments::{
    ArgumentValue, ArgumentValueView, Arguments, ArgumentsView, Member, MemberView,
};
use crate::channel::{MailboxMessage, MailboxMessageView, MessageSource};
use crate::session::{uuid_text, SessionId};
use crate::table::entry;

verus! {

broadcast use vstd::seq::group_seq_axioms;

/// Whether a message is one that a source admits.
pub open spec fn admits(source: MessageSource, message: MailboxMessageView) -> bool {
    match source {
        MessageSource::Any => true,
        MessageSource::Session(session_id) => message.from == session_id,
    }
}

/// The number of messages in front of the first one that a source admits.
pub open spec fn before_match(mailbox: Seq<MailboxMessageView>, source: MessageSource) -> nat
    decreases mailbox.len(),
{
    if mailbox.len() == 0 || admits(source, mailbox[0]) {
        0
    } else {
        1 + before_match(mailbox.drop_first(), source)
    }
}

/// The message that is taken out of a mailbox.
pub open spec fn popped(mailbox: Seq<MailboxMessageView>, source: MessageSource) -> Option<
    MailboxMessageView,
> {
    let i = before_match(mailbox, source) as int;
    if i < mailbox.len() {
        Some(mailbox[i])
    } else {
        None
    }
}

/// The mailbox without the message that is taken out.
pub open spec fn after_pop(mailbox: Seq<MailboxMessageView>, source: MessageSource) -> Seq<
    MailboxMessageView,
> {
    let i = before_match(mailbox, source) as int;
    if i < mailbox.len() {
        mailbox.remove(i)
    } else {
        mailbox
    }
}

/// The messages that a source admits, in order.
pub open spec fn admitted(mailbox: Seq<MailboxMessageView>, source: MessageSource) -> Seq<
    MailboxMessageView,
>
    decreases mailbox.len(),
{
    if mailbox.len() == 0 {
        Seq::empty()
    } else if admits(source, mailbox[0]) {
        seq![mailbox[0]] + admitted(mailbox.drop_first(), source)
    } else {
        admitted(mailbox.drop_first(), source)
    }
}

/// A mailbox is first in, first out for every source: the message that is taken out is the
/// oldest one that the source admits, and the others that it admits stay in their order.
/// Without such a message nothing is taken out.
pub proof fn law_mailbox_is_fifo(mailbox: Seq<MailboxMessageView>, source: MessageSource)
    ensures
        match popped(mailbox, source) {
            Some(message) => {
                &&& admitted(mailbox, source).len() > 0
                &&& message == admitted(mailbox, source)[0]
                &&& admitted(after_pop(mailbox, source), source) == admitted(
                    mailbox,
                    source,
                ).drop_first()
                &&& after_pop(mailbox, source).len() == mailbox.len() - 1
            },
            None => {
                &&& admitted(mailbox, source).len() == 0
                &&& after_pop(mailbox, source) == mailbox
            },
        },
    decreases mailbox.len(),
{
    if mailbox.len() > 0 {
        let rest = mailbox.drop_first();
        if admits(source, mailbox[0]) {
            assert(after_pop(mailbox, source) =~= rest);
            assert(admitted(mailbox, source).drop_first() =~= admitted(rest, source));
        } else {
            law_mailbox_is_fifo(rest, source);
            let left = after_pop(mailbox, source);
            if popped(mailbox, source) is Some {
                assert(left[0] == mailbox[0]);
                assert(left.drop_first() =~= after_pop(rest, source));
            }
        }
    }
}

/// Whether a message is one that a source admits.
pub fn mailbox_matches_source(message: &MailboxMessage, source: &MessageSource) -> (r: bool)
    ensures
        r == admits(*source, message.deep_view()),
{
    match source {
        MessageSource::Any => true,
        MessageSource::Session(session_id) => message.from == *session_id,
    }
}

/// Takes the oldest message that a source admits out of a mailbox.
pub fn pop_mailbox_message(
    mailbox: &mut VecDeque<MailboxMessage>,
    source: &MessageSource,
) -> (r: Option<MailboxMessage>)
    ensures
        r.deep_view() == popped(old(mailbox).deep_view(), *source),
        final(mailbox).deep_view() == after_pop(old(mailbox).deep_view(), *source),
{
    let ghost all = mailbox.deep_view();
    let mut i: usize = 0;
    assert(all.skip(0) =~= all);
    while i < mailbox.len()
        invariant
            i <= mailbox@.len(),
            all == mailbox.deep_view(),
            all == old(mailbox).deep_view(),
            before_match(all, *source) == i + before_match(all.skip(i as int), *source),
        decreases mailbox@.len() - i,
    {
        assert(all.skip(i as int)[0] == mailbox@[i as int].deep_view());
        if mailbox_matches_source(&mailbox[i], source) {
            let r = mailbox.remove(i);
            assert(mailbox.deep_view() =~= all.remove(i as int));
            return r;
        }
        assert(all.skip(i as int).drop_first() =~= all.skip(i + 1));
        i = i + 1;
    }
    None
}

/// What a suspended session waits for. Deadlines are ticks of a monotonic clock.
#[derive(Debug)]
pub enum SuspendedWait {
    /// A message.
    Mailbox { tool_use_id: String, source: MessageSource, timeout_at: Option<u128> },
    /// The end of a child session.
    ChildExit { tool_use_id: String, child_id: SessionId, timeout_at: Option<u128> },
}

/// The model of [`SuspendedWait`].
#[verifier::ext_equal]
pub enum SuspendedWaitView {
    Mailbox { tool_use_id: Seq<char>, source: MessageSource, timeout_at: Option<u128> },
    ChildExit { tool_use_id: Seq<char>, child_id: SessionId, timeout_at: Option<u128> },
}

impl DeepView for SuspendedWait {
    type V = SuspendedWaitView;

    open spec fn deep_view(&self) -> SuspendedWaitView {
        match *self {
            SuspendedWait::Mailbox {
                tool_use_id,
                source,
                timeout_at,
            } => SuspendedWaitView::Mailbox {
                tool_use_id: tool_use_id.deep_view(),
                source,
                timeout_at,
            },
            SuspendedWait::ChildExit {
                tool_use_id,
                child_id,
                timeout_at,
            } => SuspendedWaitView::ChildExit {
                tool_use_id: tool_use_id.deep_view(),
                child_id,
                timeout_at,
            },
        }
    }
}

impl Clone for SuspendedWait {
    fn clone(&self) -> (r: Self)
        ensures
            r.deep_view() == self.deep_view(),
    {
        match self {
            SuspendedWait::Mailbox { tool_use_id, source, timeout_at } => {
                SuspendedWait::Mailbox {
                    tool_use_id: tool_use_id.clone(),
                    source: *source,
                    timeout_at: *timeout_at,
                }
            },
            SuspendedWait::ChildExit { tool_use_id, child_id, timeout_at } => {
                SuspendedWait::ChildExit {
                    tool_use_id: tool_use_id.clone(),
                    child_id: *child_id,
                    timeout_at: *timeout_at,
                }
            },
        }
    }
}

impl SuspendedWaitView {
    /// The session that has to act before the wait can end.
    pub open spec fn depends_on(self) -> Option<SessionId> {
        match self {
            SuspendedWaitView::Mailbox { source: MessageSource::Session(id), .. } => Some(id),
            SuspendedWaitView::Mailbox { source: MessageSource::Any, .. } => None,
            SuspendedWaitView::ChildExit { child_id, .. } => Some(child_id),
        }
    }

    /// When the wait ends without a result.
    pub open spec fn timeout_at(self) -> Option<u128> {
        match self {
            SuspendedWaitView::Mailbox { timeout_at, .. } => timeout_at,
            SuspendedWaitView::ChildExit { timeout_at, .. } => timeout_at,
        }
    }

    /// What is reported when the wait ends without a result.
    pub open spec fn timeout_message(self) -> Seq<char> {
        match self {
            SuspendedWaitView::Mailbox { .. } => "recv_message timed out"@,
            SuspendedWaitView::ChildExit { .. } => "wait_child timed out"@,
        }
    }

    /// The tool call that waits.
    pub open spec fn tool_use_id(self) -> Seq<char> {
        match self {
            SuspendedWaitView::Mailbox { tool_use_id, .. } => tool_use_id,
            SuspendedWaitView::ChildExit { tool_use_id, .. } => tool_use_id,
        }
    }
}

impl SuspendedWait {
    /// The session that has to act before the wait can end.
    pub fn depends_on(&self) -> (r: Option<SessionId>)
        ensures
            r == self.deep_view().depends_on(),
    {
        match self {
            SuspendedWait::Mailbox { source, .. } => match source {
                MessageSource::Session(session_id) => Some(*session_id),
                MessageSource::Any => None,
            },
            SuspendedWait::ChildExit { child_id, .. } => Some(*child_id),
        }
    }

    /// When the wait ends without a result.
    pub fn timeout_at(&self) -> (r: Option<u128>)
        ensures
            r == self.deep_view().timeout_at(),
    {
        match self {
            SuspendedWait::Mailbox { timeout_at, .. } => *timeout_at,
            SuspendedWait::ChildExit { timeout_at, .. } => *timeout_at,
        }
    }

    /// What is reported when the wait ends without a result.
    pub fn timeout_message(&self) -> (r: &'static str)
        ensures
            r@ == self.deep_view().timeout_message(),
    {
        match self {
            SuspendedWait::Mailbox { .. } => "recv_message timed out",
            SuspendedWait::ChildExit { .. } => "wait_child timed out",
        }
    }

    /// The tool call that waits.
    pub fn tool_use_id(&self) -> (r: &str)
        ensures
            r@ == self.deep_view().tool_use_id(),
    {
        match self {
            SuspendedWait::Mailbox { tool_use_id, .. } => tool_use_id.as_str(),
            SuspendedWait::ChildExit { tool_use_id, .. } => tool_use_id.as_str(),
        }
    }
}

/// Whom a session waits for: the first edge that leaves it.
pub open spec fn edge_from(edges: Seq<(SessionId, SessionId)>, id: SessionId) -> Option<SessionId> {
    entry(edges, id)
}

/// The session that is reached from `from` along `n` edges.
pub open spec fn along(edges: Seq<(SessionId, SessionId)>, from: SessionId, n: nat) -> Option<
    SessionId,
>
    decreases n,
{
    if n == 0 {
        Some(from)
    } else {
        match along(edges, from, (n - 1) as nat) {
            Some(id) => edge_from(edges, id),
            None => None,
        }
    }
}

/// Whether `target` is reached from `from` along any number of edges.
pub open spec fn reaches(
    edges: Seq<(SessionId, SessionId)>,
    from: SessionId,
    target: SessionId,
) -> bool {
    exists|n: nat| along(edges, from, n) == Some(target)
}

proof fn lemma_edge_from(edges: Seq<(SessionId, SessionId)>, id: SessionId)
    ensures
        match edge_from(edges, id) {
            Some(next) => edges.contains((id, next)),
            None => forall|i: int| 0 <= i < edges.len() ==> (#[trigger] edges[i]).0 != id,
        },
    decreases edges.len(),
{
    if edges.len() > 0 && edges[0].0 != id {
        let rest = edges.drop_first();
        lemma_edge_from(rest, id);
        match edge_from(rest, id) {
            Some(next) => {
                let i = choose|i: int| 0 <= i < rest.len() && rest[i] == (id, next);
                assert(edges[i + 1] == (id, next));
            },
            None => {
                assert forall|i: int| 0 <= i < edges.len() implies (#[trigger] edges[i]).0 != id by {
                    if i > 0 {
                        assert(rest[i - 1] == edges[i]);
                    }
                }
            },
        }
    } else if edges.len() > 0 {
        assert(edges[0] == (id, edges[0].1));
    }
}

/// The sessions that have edges are at most as many as the edges.
proof fn lemma_few_sources(edges: Seq<(SessionId, SessionId)>, ids: Seq<SessionId>)
    requires
        ids.no_duplicates(),
        forall|i: int| 0 <= i < ids.len() ==> edge_from(edges, #[trigger] ids[i]) is Some,
    ensures
        ids.len() <= edges.len(),
{
    let sources = edges.map_values(|e: (SessionId, SessionId)| e.0);
    assert(ids.to_set().subset_of(sources.to_set())) by {
        assert forall|id: SessionId| ids.to_set().contains(id) implies sources.to_set().contains(
            id,
        ) by {
            let i = choose|i: int| 0 <= i < ids.len() && ids[i] == id;
            assert(edge_from(edges, ids[i]) is Some);
            lemma_edge_from(edges, id);
            let next = edge_from(edges, id)->0;
            let j = choose|j: int| 0 <= j < edges.len() && edges[j] == (id, next);
            assert(sources[j] == id);
        }
    }
    ids.unique_seq_to_set();
    sources.lemma_cardinality_of_set();
    vstd::set_lib::lemma_len_subset(ids.to_set(), sources.to_set());
}

/// A walk that comes back to where it was stays among what it has seen.
proof fn lemma_periodic(
    edges: Seq<(SessionId, SessionId)>,
    from: SessionId,
    seen: Seq<SessionId>,
    n: nat,
)
    requires
        forall|i: int|
            0 <= i < seen.len() ==> along(edges, from, i as nat) == Some(#[trigger] seen[i]),
        exists|j: int|
            0 <= j < seen.len() && along(edges, from, seen.len()) == Some(#[trigger] seen[j]),
    ensures
        along(edges, from, n) matches Some(id) && seen.contains(id),
    decreases n,
{
    if n < seen.len() {
        assert(seen[n as int] == along(edges, from, n)->0);
    } else if n == seen.len() {
    } else {
        lemma_periodic(edges, from, seen, (n - 1) as nat);
        let id = along(edges, from, (n - 1) as nat)->0;
        let i = choose|i: int| 0 <= i < seen.len() && seen[i] == id;
        assert(along(edges, from, i as nat) == Some(seen[i]));
        assert(along(edges, from, (i + 1) as nat) == edge_from(edges, id));
        if i + 1 < seen.len() {
            assert(along(edges, from, (i + 1) as nat) == Some(seen[i + 1]));
        }
    }
}

/// A walk that ends does not go on.
proof fn lemma_ended(edges: Seq<(SessionId, SessionId)>, from: SessionId, end: nat, n: nat)
    requires
        along(edges, from, end) is None,
        n >= end,
    ensures
        along(edges, from, n) is None,
    decreases n,
{
    if n > end {
        lemma_ended(edges, from, end, (n - 1) as nat);
    }
}

/// Whom a session waits for.
pub fn find_edge(edges: &Vec<(SessionId, SessionId)>, id: SessionId) -> (r: Option<SessionId>)
    ensures
        r == edge_from(edges@, id),
{
    let mut i: usize = 0;
    assert(edges@.skip(0) =~= edges@);
    while i < edges.len()
        invariant
            i <= edges@.len(),
            edge_from(edges@, id) == edge_from(edges@.skip(i as int), id),
        decreases edges@.len() - i,
    {
        assert(edges@.skip(i as int).drop_first() =~= edges@.skip(i + 1));
        if edges[i].0 == id {
            return Some(edges[i].1);
        }
        i = i + 1;
    }
    None
}

/// Whether a wait of `waiter` for `dependency` would close a cycle: whether `waiter` is
/// reached from `dependency` along the waits there are. A wait for oneself is a cycle.
pub fn wait_closes_cycle(
    edges: &Vec<(SessionId, SessionId)>,
    waiter: SessionId,
    dependency: SessionId,
) -> (r: bool)
    ensures
        r == reaches(edges@, dependency, waiter),
{
    let mut seen: Vec<SessionId> = Vec::new();
    let mut current: SessionId = dependency;
    loop
        invariant
            seen@.no_duplicates(),
            along(edges@, dependency, seen@.len()) == Some(current),
            forall|i: int|
                0 <= i < seen@.len() ==> along(edges@, dependency, i as nat) == Some(
                    #[trigger] seen@[i],
                ),
            forall|i: int| 0 <= i < seen@.len() ==> #[trigger] seen@[i] != waiter,
            forall|i: int|
                0 <= i < seen@.len() ==> edge_from(edges@, #[trigger] seen@[i]) is Some,
        decreases edges@.len() + 1 - seen@.len(),
    {
        if was_seen(&seen, current) {
            proof {
                assert forall|n: nat| along(edges@, dependency, n) != Some(waiter) by {
                    let j = choose|j: int| 0 <= j < seen@.len() && seen@[j] == current;
                    assert(along(edges@, dependency, seen@.len()) == Some(seen@[j]));
                    lemma_periodic(edges@, dependency, seen@, n);
                }
            }
            return false;
        }
        if current == waiter {
            return true;
        }
        match find_edge(edges, current) {
            Some(next) => {
                let ghost before = seen@;
                seen.push(current);
                proof {
                    assert forall|i: int| 0 <= i < seen@.len() implies edge_from(
                        edges@,
                        #[trigger] seen@[i],
                    ) is Some by {
                        if i < before.len() {
                            assert(seen@[i] == before[i]);
                        }
                    }
                    lemma_few_sources(edges@, seen@);
                    assert(along(edges@, dependency, seen@.len()) == edge_from(edges@, current));
                }
                current = next;
            },
            None => {
                proof {
                    let end = (seen@.len() + 1) as nat;
                    assert(along(edges@, dependency, end) is None);
                    assert forall|n: nat| along(edges@, dependency, n) != Some(waiter) by {
                        if n < seen@.len() {
                            assert(along(edges@, dependency, n) == Some(seen@[n as int]));
                        } else if n >= end {
                            lemma_ended(edges@, dependency, end, n);
                        }
                    }
                }
                return false;
            },
        }
    }
}

/// Whether a session is among those seen.
fn was_seen(seen: &Vec<SessionId>, id: SessionId) -> (r: bool)
    ensures
        r == seen@.contains(id),
{
    let mut i: usize = 0;
    while i < seen.len()
        invariant
            i <= seen@.len(),
            forall|j: int| 0 <= j < i ==> seen@[j] != id,
        decreases seen@.len() - i,
    {
        if seen[i] == id {
            assert(seen@[i as int] == id);
            return true;
        }
        i = i + 1;
    }
    false
}

/// The JSON text of a message as its receiver gets it.
pub open spec fn message_json(message: MailboxMessageView) -> Seq<char> {
    ArgumentsView::Object(
        seq![
            MemberView { key: "content"@, value: ArgumentValueView::Text(message.content) },
            MemberView {
                key: "from"@,
                value: ArgumentValueView::Text(uuid_text(message.from.0)),
            },
        ],
    ).json()
}

/// The JSON text of a message as its receiver gets it.
pub fn render_message(message: &MailboxMessage) -> (r: String)
    ensures
        r@ == message_json(message.deep_view()),
{
    let mut members: Vec<Member> = Vec::new();
    members.push(
        Member {
            key: "content".to_owned(),
            value: ArgumentValue::Text(message.content.clone()),
        },
    );
    members.push(
        Member { key: "from".to_owned(), value: ArgumentValue::Text(message.from.text()) },
    );
    assert(members.deep_view() =~= seq![
        MemberView { key: "content"@, value: ArgumentValueView::Text(message.content@) },
        MemberView { key: "from"@, value: ArgumentValueView::Text(uuid_text(message.from.0)) },
    ]);
    Arguments::Object(members).json()
}

} // verus!
