//! What trimming, splitting, joining and writing numbers are for.

use vstd::prelude::*;

use crate::laws::parts::{begins_with, ends_with};
use crate::text;

verus! {

broadcast use vstd::seq::group_seq_axioms;

/// Whether a text is nothing but white space.
pub open spec fn blank(s: Seq<char>) -> bool {
    forall|i: int| 0 <= i < s.len() ==> text::is_space(#[trigger] s[i])
}

/// Whether a text has no white space.
pub open spec fn unbroken(s: Seq<char>) -> bool {
    forall|i: int| 0 <= i < s.len() ==> !text::is_space(#[trigger] s[i])
}

proof fn lemma_trim_start(s: Seq<char>)
    ensures
        ({
            let n = s.len() - text::trim_start(s).len();
            &&& 0 <= n <= s.len()
            &&& text::trim_start(s) == s.skip(n)
            &&& blank(s.take(n))
            &&& text::trim_start(s).len() > 0 ==> !text::is_space(text::trim_start(s)[0])
        }),
    decreases s.len(),
{
    if s.len() > 0 && text::is_space(s[0]) {
        let rest = s.drop_first();
        lemma_trim_start(rest);
        let n = s.len() - text::trim_start(s).len();
        assert(rest.skip(n - 1) =~= s.skip(n));
        assert forall|i: int| 0 <= i < n implies text::is_space(#[trigger] s.take(n)[i]) by {
            if i > 0 {
                assert(rest.take(n - 1)[i - 1] == s[i]);
            }
        }
    } else {
        assert(s.skip(0) =~= s);
    }
}

pub proof fn lemma_trim_end(s: Seq<char>)
    ensures
        ({
            let n = text::trim_end(s).len();
            &&& n <= s.len()
            &&& text::trim_end(s) == s.take(n as int)
            &&& blank(s.skip(n as int))
            &&& n > 0 ==> !text::is_space(text::trim_end(s).last())
        }),
    decreases s.len(),
{
    if s.len() > 0 && text::is_space(s.last()) {
        let rest = s.drop_last();
        lemma_trim_end(rest);
        let n = text::trim_end(s).len() as int;
        assert(rest.take(n) =~= s.take(n));
        assert forall|i: int| 0 <= i < s.len() - n implies text::is_space(
            #[trigger] s.skip(n)[i],
        ) by {
            if i < s.len() - n - 1 {
                assert(rest.skip(n)[i] == s[n + i]);
            }
        }
    } else {
        assert(s.take(s.len() as int) =~= s);
    }
}

/// Trimming takes white space away at both ends, all of it and nothing else.
pub proof fn law_trimming_takes_white_space(s: Seq<char>)
    ensures
        ({
            let t = text::trimmed(s);
            &&& exists|front: Seq<char>, back: Seq<char>|
                s == #[trigger] (front + t + back) && blank(front) && blank(back)
            &&& t.len() > 0 ==> !text::is_space(t[0]) && !text::is_space(t.last())
            &&& blank(s) ==> t.len() == 0
            &&& text::trimmed(t) == t
        }),
{
    let a = text::trim_start(s);
    let t = text::trimmed(s);
    lemma_trim_start(s);
    lemma_trim_end(a);
    let front = s.take(s.len() - a.len());
    let back = a.skip(t.len() as int);
    assert(s =~= front + t + back);
    if t.len() > 0 {
        assert(t[0] == a[0]);
        assert(text::trim_start(t) == t);
        assert(text::trim_end(t) == t);
        if blank(s) {
            assert(text::is_space(s[front.len() as int]));
        }
    }
}

/// Words that are put together with spaces between them are those words again when they are
/// taken apart.
pub proof fn law_words_come_back(words: Seq<Seq<char>>)
    requires
        forall|i: int|
            0 <= i < words.len() ==> (#[trigger] words[i]).len() > 0 && unbroken(words[i]),
    ensures
        text::word_list(text::joined(words, " "@)) == words,
    decreases words.len(),
{
    reveal_strlit(" ");
    if words.len() == 1 {
        lemma_one_word(words[0]);
        assert(text::word_list(words[0]) =~= words);
    } else if words.len() > 1 {
        let front = words.drop_last();
        assert forall|i: int| 0 <= i < front.len() implies (#[trigger] front[i]).len() > 0
            && unbroken(front[i]) by {
            assert(front[i] == words[i]);
        }
        law_words_come_back(front);
        let last = words[words.len() - 1];
        lemma_one_word(last);
        lemma_words_add_up(text::joined(front, " "@), ' ', last);
        assert(" "@ =~= seq![' ']);
        assert(text::joined(words, " "@) == text::joined(front, " "@) + seq![' '] + last);
        assert(front.push(last) =~= words);
        assert(front + seq![last] =~= words);
    } else {
        assert(text::word_list(text::joined(words, " "@)) =~= words);
    }
}

proof fn lemma_one_word(word: Seq<char>)
    requires
        word.len() > 0,
        unbroken(word),
    ensures
        text::word_list(word) == seq![word],
{
    assert(!text::is_space(word[0]));
    text::lemma_word_end(word);
    if text::word_end(word) < word.len() {
        assert(text::is_space(word[text::word_end(word) as int]));
    }
    assert(word.take(word.len() as int) =~= word);
    assert(word.skip(word.len() as int) =~= Seq::empty());
    assert(text::word_list(Seq::empty()) =~= Seq::empty());
    assert(text::word_list(word) =~= seq![word]);
}

proof fn lemma_word_end_sum(a: Seq<char>, space: char, b: Seq<char>)
    requires
        text::is_space(space),
    ensures
        text::word_end(a + seq![space] + b) == text::word_end(a),
    decreases a.len(),
{
    let whole = a + seq![space] + b;
    if a.len() > 0 {
        assert(whole[0] == a[0]);
        if !text::is_space(a[0]) {
            lemma_word_end_sum(a.drop_first(), space, b);
            assert(whole.drop_first() =~= a.drop_first() + seq![space] + b);
        }
    } else {
        assert(whole[0] == space);
    }
}

/// The words of two texts with white space between them are those of the first and then those
/// of the second.
pub proof fn lemma_words_add_up(a: Seq<char>, space: char, b: Seq<char>)
    requires
        text::is_space(space),
    ensures
        text::word_list(a + seq![space] + b) == text::word_list(a) + text::word_list(b),
    decreases a.len(),
{
    let whole = a + seq![space] + b;
    if a.len() == 0 {
        assert(whole[0] == space);
        assert(whole.drop_first() =~= b);
        assert(text::word_list(a) + text::word_list(b) =~= text::word_list(b));
    } else if text::is_space(a[0]) {
        assert(whole[0] == a[0]);
        lemma_words_add_up(a.drop_first(), space, b);
        assert(whole.drop_first() =~= a.drop_first() + seq![space] + b);
    } else {
        assert(whole[0] == a[0]);
        let n = text::word_end(a) as int;
        text::lemma_word_end(a);
        lemma_word_end_sum(a, space, b);
        lemma_words_add_up(a.skip(n), space, b);
        assert(whole.skip(n) =~= a.skip(n) + seq![space] + b);
        assert(whole.take(n) =~= a.take(n));
        assert(text::word_list(whole) =~= text::word_list(a) + text::word_list(b));
    }
}

/// No word has white space, and none is empty.
pub proof fn law_words_are_unbroken(s: Seq<char>, i: int)
    requires
        0 <= i < text::word_list(s).len(),
    ensures
        text::word_list(s)[i].len() > 0,
        unbroken(text::word_list(s)[i]),
    decreases s.len(),
{
    if s.len() > 0 {
        if text::is_space(s[0]) {
            law_words_are_unbroken(s.drop_first(), i);
        } else {
            text::lemma_word_end(s);
            let n = text::word_end(s) as int;
            if i > 0 {
                law_words_are_unbroken(s.skip(n), i - 1);
            } else {
                assert(text::word_list(s)[0] == s.take(n));
                assert forall|k: int| 0 <= k < n implies !text::is_space(
                    #[trigger] s.take(n)[k],
                ) by {
                    assert(s.take(n)[k] == s[k]);
                }
            }
        }
    }
}

proof fn lemma_until_sum(line: Seq<char>, rest: Seq<char>)
    requires
        forall|i: int| 0 <= i < line.len() ==> (#[trigger] line[i]) != '\n',
    ensures
        text::until(line + seq!['\n'] + rest, '\n') == line.len(),
{
    let whole = line + seq!['\n'] + rest;
    text::lemma_until(whole, '\n');
    let n = text::until(whole, '\n') as int;
    assert(whole[line.len() as int] == '\n');
    if n < line.len() {
        assert(whole[n] == line[n]);
    }
}

/// The first line of a text is what stands in front of its first line feed, and the others
/// are the lines of what follows.
pub proof fn law_first_line(line: Seq<char>, rest: Seq<char>)
    requires
        forall|i: int| 0 <= i < line.len() ==> (#[trigger] line[i]) != '\n',
        line.len() > 0 ==> line.last() != '\r',
    ensures
        text::line_list(line + seq!['\n'] + rest) == seq![line] + text::line_list(rest),
        text::line_list(line + seq!['\r'] + seq!['\n'] + rest) == seq![line] + text::line_list(rest),
        line.len() > 0 ==> text::line_list(line) == seq![line],
        text::line_list(Seq::empty()).len() == 0,
{
    let whole = line + seq!['\n'] + rest;
    lemma_until_sum(line, rest);
    assert(whole.take(line.len() as int) =~= line);
    assert(whole.skip(line.len() as int + 1) =~= rest);
    let returned = line.push('\r');
    assert forall|i: int| 0 <= i < returned.len() implies (#[trigger] returned[i]) != '\n' by {
        if i < line.len() {
            assert(returned[i] == line[i]);
        }
    }
    let other = returned + seq!['\n'] + rest;
    lemma_until_sum(returned, rest);
    assert(line + seq!['\r'] + seq!['\n'] + rest =~= other);
    assert(other.take(returned.len() as int) =~= returned);
    assert(other.skip(returned.len() as int + 1) =~= rest);
    assert(returned.drop_last() =~= line);
    if line.len() > 0 {
        text::lemma_until(line, '\n');
        if text::until(line, '\n') < line.len() {
            assert(line[text::until(line, '\n') as int] == '\n');
        }
    }
}

/// A number that is written down is read as that number.
pub proof fn law_numbers_are_read_back(n: nat)
    ensures
        text::digits_value(text::digits(n)) == n,
        text::digits(n).len() > 0,
        forall|i: int|
            0 <= i < text::digits(n).len() ==> text::is_digit(#[trigger] text::digits(n)[i]),
        n <= usize::MAX ==> text::usize_value(text::digits(n)) == Some(n as usize),
    decreases n,
{
    let all = text::digits(n);
    if n < 10 {
        assert(all.drop_last() =~= Seq::empty());
        assert(text::digits_value(Seq::empty()) == 0);
        assert(all.last() == text::digit(n));
    } else {
        law_numbers_are_read_back(n / 10);
        let front = text::digits(n / 10);
        assert(all.drop_last() =~= front);
        assert(all.last() == text::digit(n % 10));
        assert(text::is_digit(text::digit(n % 10)));
        assert forall|i: int| 0 <= i < all.len() implies text::is_digit(#[trigger] all[i]) by {
            if i < front.len() {
                assert(all[i] == front[i]);
            }
        }
    }
    assert(text::is_digit(all[0]));
    assert(text::unsigned_digits(all) == all);
}

/// A text that has anything but digits behind a plus sign is no number.
pub proof fn law_what_is_no_number(s: Seq<char>, i: int)
    requires
        0 <= i < s.len(),
        !text::is_digit(s[i]),
        s[i] != '+' || i > 0,
    ensures
        text::usize_value(s) is None,
        text::usize_value(Seq::empty()) is None,
{
    let d = text::unsigned_digits(s);
    if s[0] == '+' {
        assert(d[i - 1] == s[i]);
    } else {
        assert(d[i] == s[i]);
    }
}

/// The beginning and the end of a text are cut off at a number of characters, and are the
/// whole text where it is not longer.
pub proof fn law_cutting_off(s: Seq<char>, n: nat)
    ensures
        begins_with(s, text::first_chars(s, n)),
        ends_with(s, text::last_chars(s, n)),
        s.len() <= n ==> text::first_chars(s, n) == s && text::last_chars(s, n) == s,
        s.len() > n ==> text::first_chars(s, n).len() == n && text::last_chars(s, n).len() == n,
{
    assert(s.take(s.len() as int) =~= s);
    assert(s.skip(0) =~= s);
}

/// The order of texts is that of their first characters that differ; a beginning of a text comes
/// before it.
pub proof fn law_order_of_texts(front: Seq<char>, c: char, d: char, a: Seq<char>, b: Seq<char>)
    requires
        (c as u32) < (d as u32),
    ensures
        text::text_le(front + seq![c] + a, front + seq![d] + b),
        !text::text_le(front + seq![d] + b, front + seq![c] + a),
        text::text_le(front, front + a),
        a.len() > 0 ==> !text::text_le(front + a, front),
    decreases front.len(),
{
    let x = front + seq![c] + a;
    let y = front + seq![d] + b;
    if front.len() == 0 {
        assert(x[0] == c);
        assert(y[0] == d);
        assert(front + a =~= a);
    } else {
        let rest = front.drop_first();
        law_order_of_texts(rest, c, d, a, b);
        assert(x[0] == front[0] && y[0] == front[0]);
        assert(x.drop_first() =~= rest + seq![c] + a);
        assert(y.drop_first() =~= rest + seq![d] + b);
        assert((front + a).drop_first() =~= rest + a);
    }
}

} // verus!
