//! Texts that are parts of texts.

use vstd::prelude::*;

use crate::text;

verus! {

broadcast use vstd::seq::group_seq_axioms;

/// Whether a text stands in another without a gap.
pub open spec fn part_of(part: Seq<char>, whole: Seq<char>) -> bool {
    exists|at: int| stands_at(part, whole, at)
}

/// Whether a text stands in another at a place.
pub open spec fn stands_at(part: Seq<char>, whole: Seq<char>, at: int) -> bool {
    &&& 0 <= at <= whole.len() - part.len()
    &&& whole.subrange(at, at + part.len()) == part
}

/// A text is a part of what it is put together with.
pub proof fn lemma_between(front: Seq<char>, part: Seq<char>, back: Seq<char>)
    ensures
        part_of(part, front + part + back),
{
    assert((front + part + back).subrange(front.len() as int, (front.len() + part.len()) as int)
        =~= part);
    assert(stands_at(part, front + part + back, front.len() as int));
}

/// A text is a part of what it is put together with, however that is written.
pub proof fn lemma_is_between(
    whole: Seq<char>,
    front: Seq<char>,
    part: Seq<char>,
    back: Seq<char>,
)
    requires
        whole == front + part + back,
    ensures
        part_of(part, whole),
{
    lemma_between(front, part, back);
}

/// A text is a part of itself.
pub proof fn lemma_whole(part: Seq<char>)
    ensures
        part_of(part, part),
{
    assert(part.subrange(0, part.len() as int) =~= part);
    assert(stands_at(part, part, 0));
}

/// A part stays a part where more is put behind or in front.
pub proof fn lemma_part_of_sum(part: Seq<char>, first: Seq<char>, second: Seq<char>)
    ensures
        part_of(part, first) ==> part_of(part, first + second),
        part_of(part, second) ==> part_of(part, first + second),
{
    if part_of(part, first) {
        let at = choose|at: int| stands_at(part, first, at);
        assert((first + second).subrange(at, at + part.len()) =~= first.subrange(
            at,
            at + part.len(),
        ));
        assert(stands_at(part, first + second, at));
    }
    if part_of(part, second) {
        let at = choose|at: int| stands_at(part, second, at);
        assert((first + second).subrange(first.len() + at, first.len() + at + part.len())
            =~= second.subrange(at, at + part.len()));
        assert(stands_at(part, first + second, first.len() + at));
    }
}

/// A part of a part is a part.
pub proof fn lemma_part_of_part(part: Seq<char>, middle: Seq<char>, whole: Seq<char>)
    requires
        part_of(part, middle),
        part_of(middle, whole),
    ensures
        part_of(part, whole),
{
    let a = choose|at: int| stands_at(part, middle, at);
    let b = choose|at: int| stands_at(middle, whole, at);
    assert(whole.subrange(b + a, b + a + part.len()) =~= whole.subrange(
        b,
        b + middle.len(),
    ).subrange(a, a + part.len()));
    assert(stands_at(part, whole, b + a));
}

/// Joined texts hold each of them.
pub proof fn lemma_part_of_joined(parts: Seq<Seq<char>>, separator: Seq<char>, i: int)
    requires
        0 <= i < parts.len(),
    ensures
        part_of(parts[i], text::joined(parts, separator)),
    decreases parts.len(),
{
    if parts.len() == 1 {
        lemma_whole(parts[0]);
    } else {
        let front = text::joined(parts.drop_last(), separator);
        if i == parts.len() - 1 {
            lemma_whole(parts[i]);
            lemma_part_of_sum(parts[i], front + separator, parts[i]);
        } else {
            lemma_part_of_joined(parts.drop_last(), separator, i);
            assert(parts.drop_last()[i] == parts[i]);
            lemma_part_of_sum(parts[i], front, separator);
            lemma_part_of_sum(parts[i], front + separator, parts.last());
        }
    }
}

/// Texts that are joined in two steps are joined as in one.
pub proof fn lemma_joined_sum(
    first: Seq<Seq<char>>,
    second: Seq<Seq<char>>,
    separator: Seq<char>,
)
    requires
        first.len() > 0,
        second.len() > 0,
    ensures
        text::joined(first + second, separator) == text::joined(first, separator) + separator
            + text::joined(second, separator),
    decreases second.len(),
{
    let both = first + second;
    assert(both.last() == second.last());
    if second.len() == 1 {
        assert(both.drop_last() =~= first);
        assert(second.last() == second[0]);
    } else {
        lemma_joined_sum(first, second.drop_last(), separator);
        assert(both.drop_last() =~= first + second.drop_last());
        let a = text::joined(first, separator);
        let b = text::joined(second.drop_last(), separator);
        assert((a + separator + b) + separator + second.last() =~= a + separator + (b + separator
            + second.last()));
    }
}

/// Whether a text begins with another.
pub open spec fn begins_with(whole: Seq<char>, start: Seq<char>) -> bool {
    start.len() <= whole.len() && whole.take(start.len() as int) == start
}

/// Whether a text ends with another.
pub open spec fn ends_with(whole: Seq<char>, end: Seq<char>) -> bool {
    end.len() <= whole.len() && whole.skip(whole.len() - end.len()) == end
}

} // verus!
