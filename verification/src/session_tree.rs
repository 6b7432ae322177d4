//! The tree of sessions: who made whom, who has ended and who waits for whom.

use vstd::prelude::*;
use vstd::string::*;

use crate::channel::ReplyId;
use crate::session::{debug_id_text, ExitStatus, ExitStatusView, SessionId};
use crate::table::{entry, law_entries, position_of, put, take_out, updated, without};
use crate::wait::{along, edge_from, reaches, wait_closes_cycle};

verus! {

broadcast use vstd::seq::group_seq_axioms;

/// The tree of sessions.
#[derive(Debug)]
pub struct SessionTree {
    /// The parent of each child.
    pub parents: Vec<(SessionId, SessionId)>,
    /// How sessions ended.
    pub exits: Vec<(SessionId, ExitStatus)>,
    /// Whom each waiting session waits for.
    pub waits: Vec<(SessionId, SessionId)>,
    /// Who is to be told of the end of a session.
    pub waiters: Vec<(SessionId, ReplyId)>,
}

/// The model of [`SessionTree`].
#[verifier::ext_equal]
pub struct SessionTreeView {
    pub parents: Seq<(SessionId, SessionId)>,
    pub exits: Seq<(SessionId, ExitStatusView)>,
    pub waits: Seq<(SessionId, SessionId)>,
    pub waiters: Seq<(SessionId, ReplyId)>,
}

impl DeepView for SessionTree {
    type V = SessionTreeView;

    open spec fn deep_view(&self) -> SessionTreeView {
        SessionTreeView {
            parents: self.parents.deep_view(),
            exits: self.exits.deep_view(),
            waits: self.waits.deep_view(),
            waiters: self.waiters.deep_view(),
        }
    }
}

/// Whether no session waits for itself, along any number of waits.
pub open spec fn acyclic(waits: Seq<(SessionId, SessionId)>) -> bool {
    forall|id: SessionId, n: nat| n > 0 ==> #[trigger] along(waits, id, n) != Some(id)
}

/// The error for a wait that would never end.
pub open spec fn deadlock_text(dependency: SessionId) -> Seq<char> {
    "deadlock detected: waiting for session "@ + debug_id_text(dependency)
        + " would create a wait cycle"@
}

/// The waits after one was asked for. One that would close a cycle is refused.
pub open spec fn waits_after(
    waits: Seq<(SessionId, SessionId)>,
    waiter: SessionId,
    dependency: SessionId,
) -> Seq<(SessionId, SessionId)> {
    if reaches(waits, dependency, waiter) {
        waits
    } else {
        updated(waits, waiter, dependency)
    }
}

/// Two graphs that differ only in what leaves one session have the same walks up to it.
proof fn lemma_same_walk(
    a: Seq<(SessionId, SessionId)>,
    b: Seq<(SessionId, SessionId)>,
    special: SessionId,
    from: SessionId,
    n: nat,
)
    requires
        forall|id: SessionId| id != special ==> edge_from(a, id) == #[trigger] edge_from(b, id),
        forall|k: nat| k < n ==> #[trigger] along(a, from, k) != Some(special),
    ensures
        along(a, from, n) == along(b, from, n),
    decreases n,
{
    if n > 0 {
        let m = (n - 1) as nat;
        lemma_same_walk(a, b, special, from, m);
        assert(along(a, from, m) != Some(special));
        if let Some(id) = along(a, from, m) {
            assert(edge_from(a, id) == edge_from(b, id));
        }
    }
}

/// A walk goes on from wherever it has come to.
proof fn lemma_walk_on(waits: Seq<(SessionId, SessionId)>, from: SessionId, n: nat, m: nat)
    requires
        along(waits, from, n) is Some,
    ensures
        along(waits, from, n + m) == along(waits, along(waits, from, n)->0, m),
    decreases m,
{
    if m > 0 {
        lemma_walk_on(waits, from, n, (m - 1) as nat);
        assert((n + m - 1) as nat == n + (m - 1) as nat);
    }
}

/// The first place at which a walk comes to a session.
proof fn lemma_first_visit(
    waits: Seq<(SessionId, SessionId)>,
    from: SessionId,
    target: SessionId,
    n: nat,
) -> (first: nat)
    requires
        along(waits, from, n) == Some(target),
    ensures
        first <= n,
        along(waits, from, first) == Some(target),
        forall|k: nat| k < first ==> #[trigger] along(waits, from, k) != Some(target),
    decreases n,
{
    if exists|k: nat| k < n && #[trigger] along(waits, from, k) == Some(target) {
        let k = choose|k: nat| k < n && #[trigger] along(waits, from, k) == Some(target);
        lemma_first_visit(waits, from, target, k)
    } else {
        n
    }
}

/// Sessions never come to wait for each other in a circle: refusing the waits that would
/// close a cycle keeps the waits free of cycles, and so does ending a wait.
pub proof fn law_waits_stay_acyclic(
    waits: Seq<(SessionId, SessionId)>,
    waiter: SessionId,
    dependency: SessionId,
)
    requires
        acyclic(waits),
    ensures
        acyclic(waits_after(waits, waiter, dependency)),
        acyclic(without(waits, waiter)),
{
    let less = without(waits, waiter);
    assert forall|id: SessionId| id != waiter implies edge_from(waits, id) == #[trigger] edge_from(
        less,
        id,
    ) by {
        law_entries(waits, waiter, dependency, id);
    }
    law_entries(waits, waiter, dependency, waiter);
    assert forall|id: SessionId, n: nat| n > 0 implies #[trigger] along(less, id, n) != Some(
        id,
    ) by {
        if along(less, id, n) == Some(id) {
            if exists|k: nat| k < n && #[trigger] along(less, id, k) == Some(waiter) {
                let k = choose|k: nat| k < n && #[trigger] along(less, id, k) == Some(waiter);
                assert(along(less, id, (k + 1) as nat) is None);
                lemma_ended_walk(less, id, (k + 1) as nat, n);
            } else {
                lemma_same_walk(less, waits, waiter, id, n);
            }
        }
    }
    if !reaches(waits, dependency, waiter) {
        let more = updated(waits, waiter, dependency);
        assert forall|id: SessionId| id != waiter implies edge_from(more, id)
            == #[trigger] edge_from(waits, id) by {
            law_entries(waits, waiter, dependency, id);
        }
        assert(edge_from(more, waiter) == Some(dependency));
        // A walk that leaves the waiter does not come back to it.
        assert forall|m: nat| m > 0 implies #[trigger] along(more, waiter, m) != Some(waiter) by {
            if along(more, waiter, m) == Some(waiter) {
                assert(along(more, waiter, 1) == edge_from(more, along(more, waiter, 0)->0));
                lemma_walk_on(more, waiter, 1, (m - 1) as nat);
                assert((1 + (m - 1) as nat) as nat == m);
                assert(along(more, dependency, (m - 1) as nat) == Some(waiter));
                let first = lemma_first_visit(more, dependency, waiter, (m - 1) as nat);
                lemma_same_walk(more, waits, waiter, dependency, first);
                assert(along(waits, dependency, first) == Some(waiter));
            }
        }
        assert forall|id: SessionId, n: nat| n > 0 implies #[trigger] along(more, id, n) != Some(
            id,
        ) by {
            if along(more, id, n) == Some(id) {
                if exists|k: nat| k < n && #[trigger] along(more, id, k) == Some(waiter) {
                    let k = choose|k: nat| k < n && #[trigger] along(more, id, k) == Some(waiter);
                    // From the waiter the walk comes to `id`, and on to the waiter again.
                    lemma_walk_on(more, id, k, (n - k) as nat);
                    assert((k + (n - k) as nat) as nat == n);
                    lemma_walk_on(more, waiter, (n - k) as nat, k);
                    assert(along(more, waiter, ((n - k) as nat + k) as nat) == Some(waiter));
                } else {
                    lemma_same_walk(more, waits, waiter, id, n);
                }
            }
        }
    }
}

proof fn lemma_ended_walk(
    waits: Seq<(SessionId, SessionId)>,
    from: SessionId,
    end: nat,
    n: nat,
)
    requires
        along(waits, from, end) is None,
        n >= end,
    ensures
        along(waits, from, n) is None,
    decreases n,
{
    if n > end {
        lemma_ended_walk(waits, from, end, (n - 1) as nat);
    }
}

/// Those who are to be told of the end of a session, in the order in which they asked.
pub open spec fn waiting_for(
    waiters: Seq<(SessionId, ReplyId)>,
    id: SessionId,
) -> Seq<ReplyId>
    decreases waiters.len(),
{
    if waiters.len() == 0 {
        Seq::empty()
    } else if waiters.last().0 == id {
        waiting_for(waiters.drop_last(), id).push(waiters.last().1)
    } else {
        waiting_for(waiters.drop_last(), id)
    }
}

impl SessionTree {
    /// An empty tree.
    pub fn new() -> (r: SessionTree)
        ensures
            r.deep_view() == (SessionTreeView {
                parents: Seq::empty(),
                exits: Seq::empty(),
                waits: Seq::empty(),
                waiters: Seq::empty(),
            }),
    {
        let r = SessionTree {
            parents: Vec::new(),
            exits: Vec::new(),
            waits: Vec::new(),
            waiters: Vec::new(),
        };
        assert(r.deep_view() =~= SessionTreeView {
            parents: Seq::empty(),
            exits: Seq::empty(),
            waits: Seq::empty(),
            waiters: Seq::empty(),
        });
        r
    }

    /// Notes that a session made another.
    pub fn add_child(&mut self, parent: SessionId, child: SessionId)
        ensures
            final(self).deep_view() == (SessionTreeView {
                parents: updated(old(self).deep_view().parents, child, parent),
                ..old(self).deep_view()
            }),
    {
        put(&mut self.parents, child, parent);
    }

    /// Who made a session.
    pub fn parent_of(&self, child: SessionId) -> (r: Option<SessionId>)
        ensures
            r == entry(self.deep_view().parents, child),
    {
        match position_of(&self.parents, child) {
            Some(i) => Some(self.parents[i].1),
            None => None,
        }
    }

    /// How a session ended, if it has.
    pub fn exit_status(&self, id: SessionId) -> (r: Option<ExitStatus>)
        ensures
            r.deep_view() == entry(self.deep_view().exits, id),
    {
        match position_of(&self.exits, id) {
            Some(i) => Some(self.exits[i].1.clone()),
            None => None,
        }
    }

    /// Notes how a session ended. Those who wait for it are told.
    pub fn record_exit(&mut self, id: SessionId, status: ExitStatus) -> (r: Vec<ReplyId>)
        ensures
            final(self).deep_view() == (SessionTreeView {
                exits: updated(old(self).deep_view().exits, id, status.deep_view()),
                waiters: without(old(self).deep_view().waiters, id),
                ..old(self).deep_view()
            }),
            r@ == waiting_for(old(self).deep_view().waiters, id),
    {
        let ghost all = self.waiters.deep_view();
        let mut told: Vec<ReplyId> = Vec::new();
        let mut i: usize = 0;
        assert(told@ =~= waiting_for(all.take(0), id));
        while i < self.waiters.len()
            invariant
                i <= self.waiters@.len(),
                all == self.waiters.deep_view(),
                *self == *old(self),
                told@ == waiting_for(all.take(i as int), id),
            decreases self.waiters@.len() - i,
        {
            assert(all.take(i + 1).drop_last() =~= all.take(i as int));
            if self.waiters[i].0 == id {
                told.push(self.waiters[i].1);
            }
            i = i + 1;
        }
        assert(all.take(i as int) =~= all);
        put(&mut self.exits, id, status);
        take_out(&mut self.waiters, id);
        told
    }

    /// Asks to be told of the end of a session. Nothing is noted if it has ended already.
    pub fn register_waiter(&mut self, id: SessionId, reply: ReplyId) -> (already_exited: bool)
        ensures
            already_exited == (entry(old(self).deep_view().exits, id) is Some),
            final(self).deep_view() == (if already_exited {
                old(self).deep_view()
            } else {
                SessionTreeView {
                    waiters: old(self).deep_view().waiters.push((id, reply)),
                    ..old(self).deep_view()
                }
            }),
    {
        let ghost before = self.waiters.deep_view();
        match position_of(&self.exits, id) {
            Some(_) => true,
            None => {
                self.waiters.push((id, reply));
                assert(self.waiters.deep_view() =~= before.push((id, reply)));
                false
            },
        }
    }

    /// Whether a wait would close a cycle of waits.
    pub fn wait_would_cycle(&self, waiter: SessionId, dependency: SessionId) -> (r: bool)
        ensures
            r == reaches(self.deep_view().waits, dependency, waiter),
    {
        assert(self.waits.deep_view() =~= self.waits@);
        wait_closes_cycle(&self.waits, waiter, dependency)
    }

    /// Notes that a session waits for another, unless that would close a cycle of waits.
    pub fn register_active_wait(&mut self, waiter: SessionId, dependency: SessionId) -> (r: Result<
        (),
        String,
    >)
        ensures
            match r {
                Ok(_) => !reaches(old(self).deep_view().waits, dependency, waiter),
                Err(error) => reaches(old(self).deep_view().waits, dependency, waiter) && error@
                    == deadlock_text(dependency),
            },
            final(self).deep_view() == (SessionTreeView {
                waits: waits_after(old(self).deep_view().waits, waiter, dependency),
                ..old(self).deep_view()
            }),
    {
        if self.wait_would_cycle(waiter, dependency) {
            let mut error = "deadlock detected: waiting for session ".to_owned();
            error.append(dependency.debug_text().as_str());
            error.append(" would create a wait cycle");
            Err(error)
        } else {
            put(&mut self.waits, waiter, dependency);
            Ok(())
        }
    }

    /// Notes that a session waits no more.
    pub fn clear_active_wait(&mut self, id: SessionId)
        ensures
            final(self).deep_view() == (SessionTreeView {
                waits: without(old(self).deep_view().waits, id),
                ..old(self).deep_view()
            }),
    {
        take_out(&mut self.waits, id);
    }
}

} // verus!
