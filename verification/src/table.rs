//! Lists of values that are kept by session.

use vstd::prelude::*;

use crate::session::SessionId;

verus! {

broadcast use vstd::seq::group_seq_axioms;

/// The value that is kept for a session: the first one in the list.
pub open spec fn entry<V>(pairs: Seq<(SessionId, V)>, id: SessionId) -> Option<V>
    decreases pairs.len(),
{
    if pairs.len() == 0 {
        None
    } else if pairs[0].0 == id {
        Some(pairs[0].1)
    } else {
        entry(pairs.drop_first(), id)
    }
}

/// The list without a session.
pub open spec fn without<V>(pairs: Seq<(SessionId, V)>, id: SessionId) -> Seq<(SessionId, V)>
    decreases pairs.len(),
{
    if pairs.len() == 0 {
        Seq::empty()
    } else {
        let rest = without(pairs.drop_last(), id);
        if pairs.last().0 == id {
            rest
        } else {
            rest.push(pairs.last())
        }
    }
}

/// The list with a value for a session, in place of what was kept for it.
pub open spec fn updated<V>(pairs: Seq<(SessionId, V)>, id: SessionId, value: V) -> Seq<
    (SessionId, V),
> {
    without(pairs, id).push((id, value))
}

/// The list with the value of a session replaced where it stands.
pub open spec fn replaced<V>(pairs: Seq<(SessionId, V)>, id: SessionId, value: V) -> Seq<
    (SessionId, V),
>
    decreases pairs.len(),
{
    if pairs.len() == 0 {
        pairs
    } else if pairs[0].0 == id {
        pairs.update(0, (id, value))
    } else {
        seq![pairs[0]] + replaced(pairs.drop_first(), id, value)
    }
}

/// The value that is replaced is the first one.
pub proof fn lemma_replaced<V>(pairs: Seq<(SessionId, V)>, id: SessionId, value: V, i: int)
    requires
        0 <= i < pairs.len(),
        pairs[i].0 == id,
        forall|j: int| 0 <= j < i ==> (#[trigger] pairs[j]).0 != id,
    ensures
        replaced(pairs, id, value) == pairs.update(i, (id, value)),
    decreases pairs.len(),
{
    if i > 0 {
        let rest = pairs.drop_first();
        assert(pairs[0].0 != id);
        assert forall|j: int| 0 <= j < i - 1 implies (#[trigger] rest[j]).0 != id by {
            assert(rest[j] == pairs[j + 1]);
        }
        lemma_replaced(rest, id, value, i - 1);
        assert(seq![pairs[0]] + rest.update(i - 1, (id, value)) =~= pairs.update(i, (id, value)));
    }
}

proof fn lemma_entry_push<V>(pairs: Seq<(SessionId, V)>, pair: (SessionId, V), id: SessionId)
    ensures
        entry(pairs.push(pair), id) == (match entry(pairs, id) {
            Some(value) => Some(value),
            None => if pair.0 == id {
                Some(pair.1)
            } else {
                None
            },
        }),
    decreases pairs.len(),
{
    let longer = pairs.push(pair);
    if pairs.len() == 0 {
        assert(longer.drop_first() =~= Seq::empty());
        assert(entry(longer.drop_first(), id) is None);
    } else {
        assert(longer.drop_first() =~= pairs.drop_first().push(pair));
        lemma_entry_push(pairs.drop_first(), pair, id);
    }
}

/// What is kept for one session does not depend on what happens to another. A session that
/// was taken out has nothing, and one that was put in has what was put in.
pub proof fn law_entries<V>(pairs: Seq<(SessionId, V)>, id: SessionId, value: V, other: SessionId)
    ensures
        entry(without(pairs, id), other) == (if other == id {
            None
        } else {
            entry(pairs, other)
        }),
        entry(updated(pairs, id, value), other) == (if other == id {
            Some(value)
        } else {
            entry(pairs, other)
        }),
    decreases pairs.len(),
{
    if pairs.len() > 0 {
        let front = pairs.drop_last();
        law_entries(front, id, value, other);
        assert(front.push(pairs.last()) =~= pairs);
        lemma_entry_push(front, pairs.last(), other);
        if pairs.last().0 != id {
            lemma_entry_push(without(front, id), pairs.last(), other);
        }
    }
    lemma_entry_push(without(pairs, id), (id, value), other);
}

/// Where the value of a session is kept.
pub fn position_of<V: DeepView>(pairs: &Vec<(SessionId, V)>, id: SessionId) -> (r: Option<usize>)
    ensures
        match r {
            Some(i) => i < pairs@.len() && pairs@[i as int].0 == id && entry(
                pairs.deep_view(),
                id,
            ) == Some(pairs@[i as int].1.deep_view()) && forall|j: int|
                0 <= j < i ==> (#[trigger] pairs@[j]).0 != id,
            None => entry(pairs.deep_view(), id) is None,
        },
{
    let ghost all = pairs.deep_view();
    let mut i: usize = 0;
    assert(all.skip(0) =~= all);
    while i < pairs.len()
        invariant
            i <= pairs@.len(),
            all == pairs.deep_view(),
            entry(all, id) == entry(all.skip(i as int), id),
            forall|j: int| 0 <= j < i ==> (#[trigger] pairs@[j]).0 != id,
        decreases pairs@.len() - i,
    {
        assert(all.skip(i as int).drop_first() =~= all.skip(i + 1));
        assert(all.skip(i as int)[0] == (pairs@[i as int].0, pairs@[i as int].1.deep_view()));
        if pairs[i].0 == id {
            return Some(i);
        }
        i = i + 1;
    }
    None
}

/// Takes a session out.
pub fn take_out<V: DeepView>(pairs: &mut Vec<(SessionId, V)>, id: SessionId)
    ensures
        final(pairs).deep_view() == without(old(pairs).deep_view(), id),
{
    let ghost all = pairs.deep_view();
    let ghost mut done: int = 0;
    let mut i: usize = 0;
    assert(pairs.deep_view() =~= without(all.take(0), id) + all.skip(0));
    while i < pairs.len()
        invariant
            i <= pairs@.len(),
            0 <= done <= all.len(),
            i == without(all.take(done), id).len(),
            pairs.deep_view() == without(all.take(done), id) + all.skip(done),
        decreases pairs@.len() - i,
    {
        let ghost before = pairs.deep_view();
        let ghost kept = without(all.take(done), id);
        proof {
            assert(before.len() == kept.len() + all.skip(done).len());
            assert(all.take(done + 1).drop_last() =~= all.take(done));
            assert(before[i as int] == all.skip(done)[0]);
            assert(before[i as int] == (pairs@[i as int].0, pairs@[i as int].1.deep_view()));
        }
        if pairs[i].0 == id {
            let _ = pairs.remove(i);
            assert(pairs.deep_view() =~= before.remove(i as int));
            assert(before.remove(i as int) =~= kept + all.skip(done + 1));
        } else {
            assert(before =~= kept.push(all[done]) + all.skip(done + 1));
            i = i + 1;
        }
        proof {
            done = done + 1;
        }
    }
    proof {
        assert(all.skip(done).len() == 0);
        assert(all.take(done) =~= all);
        assert(pairs.deep_view() =~= without(all, id));
    }
}

/// Keeps a value for a session, in place of what was kept for it.
pub fn put<V: DeepView>(pairs: &mut Vec<(SessionId, V)>, id: SessionId, value: V)
    ensures
        final(pairs).deep_view() == updated(old(pairs).deep_view(), id, value.deep_view()),
{
    let ghost wanted = updated(pairs.deep_view(), id, value.deep_view());
    take_out(pairs, id);
    pairs.push((id, value));
    assert(pairs.deep_view() =~= wanted);
}

} // verus!
