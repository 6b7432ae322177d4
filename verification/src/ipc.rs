//! What sessions share: messages, and values by keys.

use vstd::prelude::*;
use vstd::string::*;

use crate::session::SessionId;
use crate::text;

verus! {

broadcast use vstd::seq::group_seq_axioms;

/// A message from one session to another.
#[derive(Debug)]
pub struct AgentMessage {
    pub from: SessionId,
    pub content: String,
    /// When it was sent, as RFC 3339 writes it.
    pub timestamp: String,
}

/// The model of [`AgentMessage`].
#[verifier::ext_equal]
pub struct AgentMessageView {
    pub from: SessionId,
    pub content: Seq<char>,
    pub timestamp: Seq<char>,
}

impl DeepView for AgentMessage {
    type V = AgentMessageView;

    open spec fn deep_view(&self) -> AgentMessageView {
        AgentMessageView {
            from: self.from,
            content: self.content.deep_view(),
            timestamp: self.timestamp.deep_view(),
        }
    }
}

impl Clone for AgentMessage {
    fn clone(&self) -> (r: Self)
        ensures
            r.deep_view() == self.deep_view(),
    {
        AgentMessage {
            from: self.from,
            content: self.content.clone(),
            timestamp: self.timestamp.clone(),
        }
    }
}

/// Values by keys, for several sessions.
pub struct SharedMemory {
    entries: Vec<(String, String)>,
}

/// The values that pairs give to keys; of two pairs for one key the later counts.
pub open spec fn values_of(pairs: Seq<(Seq<char>, Seq<char>)>) -> Map<Seq<char>, Seq<char>>
    decreases pairs.len(),
{
    if pairs.len() == 0 {
        Map::empty()
    } else {
        values_of(pairs.drop_last()).insert(pairs.last().0, pairs.last().1)
    }
}

/// Whether no key stands twice.
pub open spec fn keys_differ(pairs: Seq<(Seq<char>, Seq<char>)>) -> bool {
    forall|i: int, j: int|
        0 <= i < j < pairs.len() ==> (#[trigger] pairs[i]).0 != (#[trigger] pairs[j]).0
}

proof fn lemma_values(pairs: Seq<(Seq<char>, Seq<char>)>, key: Seq<char>)
    requires
        keys_differ(pairs),
    ensures
        values_of(pairs).dom().contains(key) <==> exists|i: int|
            0 <= i < pairs.len() && (#[trigger] pairs[i]).0 == key,
        forall|i: int|
            0 <= i < pairs.len() && (#[trigger] pairs[i]).0 == key ==> values_of(pairs)[key]
                == pairs[i].1,
    decreases pairs.len(),
{
    if pairs.len() > 0 {
        let front = pairs.drop_last();
        assert(keys_differ(front)) by {
            assert forall|i: int, j: int| 0 <= i < j < front.len() implies (#[trigger] front[i]).0
                != (#[trigger] front[j]).0 by {
                assert(pairs[i].0 != pairs[j].0);
            }
        }
        lemma_values(front, key);
        assert(pairs[pairs.len() - 1] == pairs.last());
        assert forall|i: int| 0 <= i < pairs.len() && (#[trigger] pairs[i]).0 == key implies
            values_of(pairs)[key] == pairs[i].1 by {
            if i < front.len() {
                assert(front[i] == pairs[i]);
                assert(pairs[i].0 != pairs[pairs.len() - 1].0);
            }
        }
        if values_of(front).dom().contains(key) {
            let i = choose|i: int| 0 <= i < front.len() && (#[trigger] front[i]).0 == key;
            assert(pairs[i].0 == key);
        }
        if exists|i: int| 0 <= i < pairs.len() && (#[trigger] pairs[i]).0 == key {
            let i = choose|i: int| 0 <= i < pairs.len() && (#[trigger] pairs[i]).0 == key;
            if i < front.len() {
                assert(front[i].0 == key);
            }
        }
    }
}

impl SharedMemory {
    #[verifier::type_invariant]
    spec fn consistent(self) -> bool {
        keys_differ(self.entries.deep_view())
    }
}

impl View for SharedMemory {
    type V = Map<Seq<char>, Seq<char>>;

    closed spec fn view(&self) -> Map<Seq<char>, Seq<char>> {
        values_of(self.entries.deep_view())
    }
}

/// What is under a key, if anything.
pub open spec fn value_at(memory: Map<Seq<char>, Seq<char>>, key: Seq<char>) -> Option<Seq<char>> {
    if memory.dom().contains(key) {
        Some(memory[key])
    } else {
        None
    }
}

/// What was set last under a key is found there, until it is removed; other keys are not
/// touched.
pub proof fn law_memory_keeps_what_was_set(
    memory: Map<Seq<char>, Seq<char>>,
    key: Seq<char>,
    value: Seq<char>,
    other: Seq<char>,
)
    ensures
        value_at(memory.insert(key, value), key) == Some(value),
        value_at(memory.insert(key, value).remove(key), key) is None,
        other != key ==> value_at(memory.insert(key, value), other) == value_at(memory, other),
        other != key ==> value_at(memory.remove(key), other) == value_at(memory, other),
{
}

/// The place of a key.
fn key_at(entries: &Vec<(String, String)>, key: &str) -> (r: Option<usize>)
    ensures
        match r {
            Some(i) => i < entries@.len() && entries@[i as int].0@ == key@,
            None => forall|i: int| 0 <= i < entries@.len() ==> (#[trigger] entries@[i]).0@ != key@,
        },
{
    let mut i: usize = 0;
    while i < entries.len()
        invariant
            i <= entries@.len(),
            forall|k: int| 0 <= k < i ==> (#[trigger] entries@[k]).0@ != key@,
        decreases entries@.len() - i,
    {
        if text::same(entries[i].0.as_str(), key) {
            return Some(i);
        }
        i = i + 1;
    }
    None
}

impl SharedMemory {
    /// A memory with nothing in it.
    pub fn new() -> (r: SharedMemory)
        ensures
            r@ == Map::<Seq<char>, Seq<char>>::empty(),
    {
        let entries: Vec<(String, String)> = Vec::new();
        assert(entries.deep_view() =~= Seq::empty());
        SharedMemory { entries }
    }

    /// What is under a key, if anything.
    pub fn get(&self, key: &str) -> (r: Option<String>)
        ensures
            r.deep_view() == value_at(self@, key@),
    {
        proof {
            use_type_invariant(self);
            lemma_values(self.entries.deep_view(), key@);
        }
        let ghost pairs = self.entries.deep_view();
        match key_at(&self.entries, key) {
            Some(i) => {
                assert(pairs[i as int].0 == key@);
                Some(self.entries[i].1.clone())
            },
            None => {
                assert forall|i: int| 0 <= i < pairs.len() implies (#[trigger] pairs[i]).0
                    != key@ by {
                    assert(self.entries@[i].0@ != key@);
                }
                None
            },
        }
    }

    /// Puts a value under a key. Returns what was there before, if anything.
    pub fn set(&mut self, key: String, value: String) -> (r: Option<String>)
        ensures
            final(self)@ == old(self)@.insert(key@, value@),
            r.deep_view() == value_at(old(self)@, key@),
    {
        let before = self.remove(key.as_str());
        let ghost rest = self@;
        proof {
            use_type_invariant(&*self);
            lemma_values(self.entries.deep_view(), key@);
        }
        let mut entries: Vec<(String, String)> = Vec::new();
        std::mem::swap(&mut entries, &mut self.entries);
        let ghost pairs = entries.deep_view();
        entries.push((key, value));
        let ghost grown = entries.deep_view();
        proof {
            assert(grown =~= pairs.push((key@, value@)));
            assert(grown.drop_last() =~= pairs);
            assert forall|i: int, j: int| 0 <= i < j < grown.len() implies (#[trigger] grown[i]).0
                != (#[trigger] grown[j]).0 by {
                assert(grown[i] == pairs[i]);
                if j < pairs.len() {
                    assert(grown[j] == pairs[j]);
                }
            }
        }
        self.entries = entries;
        assert(self@ =~= old(self)@.insert(key@, value@));
        before
    }

    /// Takes out what is under a key. Returns it, if there was anything.
    pub fn remove(&mut self, key: &str) -> (r: Option<String>)
        ensures
            final(self)@ == old(self)@.remove(key@),
            r.deep_view() == value_at(old(self)@, key@),
    {
        proof {
            use_type_invariant(&*self);
            lemma_values(self.entries.deep_view(), key@);
        }
        let ghost pairs = self.entries.deep_view();
        match key_at(&self.entries, key) {
            Some(i) => {
                let mut entries: Vec<(String, String)> = Vec::new();
                std::mem::swap(&mut entries, &mut self.entries);
                let taken = entries.remove(i);
                let ghost left = entries.deep_view();
                proof {
                    assert(pairs[i as int].0 == key@);
                    assert(left =~= pairs.remove(i as int));
                    lemma_removed(pairs, i as int);
                }
                self.entries = entries;
                Some(taken.1)
            },
            None => {
                assert forall|k: int| 0 <= k < pairs.len() implies (#[trigger] pairs[k]).0
                    != key@ by {
                    assert(self.entries@[k].0@ != key@);
                }
                assert(self@ =~= self@.remove(key@));
                None
            },
        }
    }
}

proof fn lemma_removed(pairs: Seq<(Seq<char>, Seq<char>)>, at: int)
    requires
        keys_differ(pairs),
        0 <= at < pairs.len(),
    ensures
        keys_differ(pairs.remove(at)),
        values_of(pairs.remove(at)) == values_of(pairs).remove(pairs[at].0),
{
    let left = pairs.remove(at);
    assert forall|i: int, j: int| 0 <= i < j < left.len() implies (#[trigger] left[i]).0 != (
    #[trigger] left[j]).0 by {
        let from = if i < at {
            i
        } else {
            i + 1
        };
        let to = if j < at {
            j
        } else {
            j + 1
        };
        assert(pairs[from].0 != pairs[to].0);
    }
    let removed = values_of(pairs).remove(pairs[at].0);
    assert forall|key: Seq<char>|
        #![trigger values_of(left).dom().contains(key)]
        #![trigger removed.dom().contains(key)]
        values_of(left).dom().contains(key) == removed.dom().contains(key) && (
        values_of(left).dom().contains(key) ==> values_of(left)[key] == removed[key]) by {
        lemma_values(left, key);
        lemma_values(pairs, key);
        if values_of(left).dom().contains(key) {
            let i = choose|i: int| 0 <= i < left.len() && (#[trigger] left[i]).0 == key;
            let from = if i < at {
                i
            } else {
                i + 1
            };
            assert(pairs[from] == left[i]);
            if from < at {
                assert(pairs[from].0 != pairs[at].0);
            } else {
                assert(pairs[at].0 != pairs[from].0);
            }
        }
        if removed.dom().contains(key) {
            let i = choose|i: int| 0 <= i < pairs.len() && (#[trigger] pairs[i]).0 == key;
            assert(i != at);
            if i < at {
                assert(left[i].0 == key);
            } else {
                assert(left[i - 1].0 == key);
            }
        }
    }
    assert(values_of(left).dom() =~= removed.dom());
    assert(values_of(left) =~= removed);
}

impl Default for SharedMemory {
    fn default() -> (r: SharedMemory)
        ensures
            r@ == Map::<Seq<char>, Seq<char>>::empty(),
    {
        SharedMemory::new()
    }
}

} // verus!
