//! What the commands of a user are for.

use vstd::prelude::*;

use crate::commands::{
    as_double, command_effect, doubled, doublings, nearest, quotient_tenths, rewound,
    tokens_text, turn_start, CommandResultView, PrintedView, Screen, SessionUsage, MANTISSA_LIMIT,
};
use crate::conversation::{log_messages, EntryView};
use crate::laws::parts::{begins_with, ends_with, lemma_is_between, part_of};
use crate::text;

verus! {

broadcast use vstd::seq::group_seq_axioms;

/// How many turns the user has begun.
pub open spec fn turns_of(entries: Seq<EntryView>) -> nat
    decreases entries.len(),
{
    if entries.len() == 0 {
        0
    } else {
        turns_of(entries.drop_last()) + (if entries.last() is UserMessage {
            1nat
        } else {
            0nat
        })
    }
}

proof fn lemma_turns_add_up(first: Seq<EntryView>, second: Seq<EntryView>)
    ensures
        turns_of(first + second) == turns_of(first) + turns_of(second),
    decreases second.len(),
{
    if second.len() == 0 {
        assert(first + second =~= first);
    } else {
        lemma_turns_add_up(first, second.drop_last());
        assert((first + second).drop_last() =~= first + second.drop_last());
        assert((first + second).last() == second.last());
    }
}

proof fn lemma_turn_start_is_found(entries: Seq<EntryView>, turns: nat)
    requires
        turns > 0,
    ensures
        match turn_start(entries, turns) {
            Some(at) => {
                &&& at < entries.len()
                &&& entries[at as int] is UserMessage
                &&& turns_of(entries.skip(at as int)) == turns
            },
            None => turns_of(entries) < turns,
        },
    decreases entries.len(),
{
    if entries.len() > 0 {
        let front = entries.drop_last();
        let last = entries.last();
        if last is UserMessage && turns == 1 {
            let at = entries.len() - 1;
            assert(entries.skip(at) =~= seq![last]);
            assert(seq![last].drop_last() =~= Seq::empty());
            assert(turns_of(Seq::<EntryView>::empty()) == 0);
        } else {
            let left = if last is UserMessage {
                (turns - 1) as nat
            } else {
                turns
            };
            lemma_turn_start_is_found(front, left);
            if let Some(at) = turn_start(front, left) {
                assert(entries.skip(at as int).drop_last() =~= front.skip(at as int));
                assert(entries.skip(at as int).last() == last);
                assert(entries[at as int] == front[at as int]);
            }
        }
    }
}

/// Going back takes away exactly as many turns of the user as were asked for, with all that
/// followed them, and leaves what was before; the messages are those of what is left. Where
/// there are not so many turns, nothing is taken away. What was shown stays.
pub proof fn law_rewind_takes_turns_away(screen: Screen, turns: nat)
    requires
        turns > 0,
    ensures
        ({
            let after = rewound(screen, turns);
            let n = after.0.len() as int;
            &&& turns_of(screen.0) < turns ==> after.0 == screen.0 && after.1 == screen.1
            &&& turns_of(screen.0) >= turns ==> {
                &&& n < screen.0.len()
                &&& after.0 == screen.0.take(n)
                &&& screen.0[n] is UserMessage
                &&& turns_of(screen.0.skip(n)) == turns
                &&& turns_of(after.0) == turns_of(screen.0) - turns
                &&& after.1 == log_messages(after.0)
                &&& after.2.last() matches PrintedView::Line(line)
                &&& part_of(text::digits(turns), line)
                &&& part_of(text::digits(n as nat), line)
            }
            &&& after.2.len() == screen.2.len() + 1
            &&& after.2.drop_last() == screen.2
        }),
{
    let after = rewound(screen, turns);
    lemma_turn_start_is_found(screen.0, turns);
    assert(after.2.drop_last() =~= screen.2);
    if let Some(at) = turn_start(screen.0, turns) {
        let n = at as int;
        lemma_turns_add_up(screen.0.take(n), screen.0.skip(n));
        assert(screen.0.take(n) + screen.0.skip(n) =~= screen.0);
        let line = crate::commands::rewound_text(turns, at);
        let a = "\x1b[33mRewound "@;
        let s = if turns == 1 {
            ""@
        } else {
            "s"@
        };
        let b = " turn"@ + s + ". Conversation now has "@;
        let c = " entries.\x1b[0m"@;
        assert(line =~= a + text::digits(turns) + (b + text::digits(at) + c));
        lemma_is_between(line, a, text::digits(turns), b + text::digits(at) + c);
        assert(line =~= (a + text::digits(turns) + b) + text::digits(at) + c);
        lemma_is_between(line, a + text::digits(turns) + b, text::digits(at), c);
    }
}

proof fn lemma_word_of(line: Seq<char>, word: Seq<char>)
    requires
        forall|i: int| 0 <= i < word.len() ==> (#[trigger] word[i]) != ' ',
    ensures
        line == word ==> crate::commands::command_word(line) == word,
        begins_with(line, word + seq![' ']) ==> crate::commands::command_word(line) == word,
{
    text::lemma_until(line, ' ');
    let n = text::until(line, ' ') as int;
    if line == word {
        if n < line.len() {
            assert(word[n] == ' ');
        }
        assert(line.take(n) =~= word);
    }
    if begins_with(line, word + seq![' ']) {
        let start = word + seq![' '];
        let m = word.len() as int;
        assert(line[m] == line.take(start.len() as int)[m]);
        assert(line[m] == ' ');
        if n < m {
            assert(line[n] == line.take(start.len() as int)[n]);
            assert(line[n] == word[n]);
        }
        assert(n == m);
        assert(line.take(n) =~= line.take(start.len() as int).take(n));
        assert(start.take(n) =~= word);
        assert(line.take(n) =~= word);
    }
}

/// What is no command is left alone: the line is for the model, and nothing changes.
pub proof fn law_other_lines_are_no_commands(
    input: Seq<char>,
    screen: Screen,
    usage: SessionUsage,
)
    requires
        text::trimmed(input).len() == 0 || text::trimmed(input)[0] != '/',
    ensures
        command_effect(input, screen, usage) == (None::<CommandResultView>, screen),
{
}

/// The commands that go back: one turn, a number of turns, one turn where no number is given,
/// and all the way.
pub proof fn law_going_back(input: Seq<char>, screen: Screen, usage: SessionUsage, turns: nat)
    requires
        0 < turns <= usize::MAX,
    ensures
        text::trimmed(input) == "/undo"@ ==> command_effect(input, screen, usage) == (
            Some(CommandResultView::Rewound),
            rewound(screen, 1),
        ),
        text::trimmed(input) == "/rewind"@ ==> command_effect(input, screen, usage) == (
            Some(CommandResultView::Rewound),
            rewound(screen, 1),
        ),
        text::trimmed(input) == "/rewind"@ + seq![' '] + text::digits(turns) ==> command_effect(
            input,
            screen,
            usage,
        ) == (Some(CommandResultView::Rewound), rewound(screen, turns)),
        text::trimmed(input) == "/clear"@ ==> {
            let (result, after) = command_effect(input, screen, usage);
            &&& result == Some(CommandResultView::Rewound)
            &&& after.0.len() == 0
            &&& after.1.len() == 0
            &&& after.2.drop_last() == screen.2
        },
{
    lemma_command_words();
    let line = text::trimmed(input);
    lemma_word_of(line, "/undo"@);
    lemma_word_of(line, "/rewind"@);
    lemma_word_of(line, "/clear"@);
    if line == "/rewind"@ + seq![' '] + text::digits(turns) {
        let start = "/rewind"@ + seq![' '];
        assert(line.take(start.len() as int) =~= start);
        let n = text::until(line, ' ') as int;
        text::lemma_until(line, ' ');
        assert(crate::commands::command_word(line) == "/rewind"@);
        assert(line.take(n).len() == 7);
        assert(line.skip(n + 1) =~= text::digits(turns));
        crate::laws::texts::law_numbers_are_read_back(turns);
        lemma_digits_are_trimmed(text::digits(turns));
    }
    if line == "/rewind"@ {
        text::lemma_until(line, ' ');
        let n = text::until(line, ' ') as int;
        assert(crate::commands::command_word(line).len() == 7);
        assert(crate::commands::command_argument(line) =~= Seq::empty());
    }
    if line == "/clear"@ {
        assert(command_effect(input, screen, usage).1.2.drop_last() =~= screen.2);
    }
}

proof fn lemma_digits_are_trimmed(s: Seq<char>)
    requires
        s.len() > 0,
        forall|i: int| 0 <= i < s.len() ==> text::is_digit(#[trigger] s[i]),
    ensures
        text::trimmed(s) == s,
{
    assert(text::is_digit(s[0]));
    assert(text::is_digit(s[s.len() - 1]));
}

/// The words of the commands have no spaces, begin with a slash, and differ.
proof fn lemma_command_words()
    ensures
        forall|i: int| 0 <= i < "/help"@.len() ==> (#[trigger] "/help"@[i]) != ' ',
        forall|i: int| 0 <= i < "/quit"@.len() ==> (#[trigger] "/quit"@[i]) != ' ',
        forall|i: int| 0 <= i < "/exit"@.len() ==> (#[trigger] "/exit"@[i]) != ' ',
        forall|i: int| 0 <= i < "/undo"@.len() ==> (#[trigger] "/undo"@[i]) != ' ',
        forall|i: int| 0 <= i < "/rewind"@.len() ==> (#[trigger] "/rewind"@[i]) != ' ',
        forall|i: int| 0 <= i < "/clear"@.len() ==> (#[trigger] "/clear"@[i]) != ' ',
        forall|i: int| 0 <= i < "/tokens"@.len() ==> (#[trigger] "/tokens"@[i]) != ' ',
        forall|i: int| 0 <= i < "/permissions"@.len() ==> (#[trigger] "/permissions"@[i]) != ' ',
        "/help"@.len() == 5 && "/quit"@.len() == 5 && "/exit"@.len() == 5 && "/undo"@.len() == 5,
        "/rewind"@.len() == 7 && "/clear"@.len() == 6 && "/tokens"@.len() == 7
            && "/permissions"@.len() == 12,
        "/help"@[0] == '/' && "/quit"@[0] == '/' && "/exit"@[0] == '/' && "/undo"@[0] == '/'
            && "/rewind"@[0] == '/' && "/clear"@[0] == '/' && "/tokens"@[0] == '/'
            && "/permissions"@[0] == '/',
        "/help"@[1] == 'h' && "/quit"@[1] == 'q' && "/exit"@[1] == 'e' && "/undo"@[1] == 'u'
            && "/rewind"@[1] == 'r' && "/tokens"@[1] == 't',
{
    reveal_strlit("/help");
    reveal_strlit("/quit");
    reveal_strlit("/exit");
    reveal_strlit("/undo");
    reveal_strlit("/rewind");
    reveal_strlit("/clear");
    reveal_strlit("/tokens");
    reveal_strlit("/permissions");
}

/// The commands that change nothing of the conversation: leaving, and showing the help, the
/// usage and the permissions. A command that is not known is named.
pub proof fn law_other_commands(
    input: Seq<char>,
    screen: Screen,
    usage: SessionUsage,
    word: Seq<char>,
)
    ensures
        text::trimmed(input) == "/quit"@ || text::trimmed(input) == "/exit"@ ==> command_effect(
            input,
            screen,
            usage,
        ) == (Some(CommandResultView::Exit), screen),
        text::trimmed(input) == "/help"@ || text::trimmed(input) == "/tokens"@ || text::trimmed(
            input,
        ) == "/permissions"@ ==> {
            let (result, after) = command_effect(input, screen, usage);
            &&& result == Some(CommandResultView::Continue)
            &&& after.0 == screen.0
            &&& after.1 == screen.1
            &&& after.2.len() > screen.2.len()
            &&& after.2.take(screen.2.len() as int) == screen.2
        },
        text::trimmed(input) == "/permissions"@ ==> command_effect(
            input,
            screen,
            usage,
        ).1.2.last() == PrintedView::PermissionStatus,
        text::trimmed(input) == word && word.len() > 0 && word[0] == '/' && (forall|i: int|
            0 <= i < word.len() ==> (#[trigger] word[i]) != ' ') && word != "/help"@ && word
            != "/quit"@ && word != "/exit"@ && word != "/undo"@ && word != "/rewind"@ && word
            != "/clear"@ && word != "/tokens"@ && word != "/permissions"@ ==> command_effect(
            input,
            screen,
            usage,
        ) == (Some(CommandResultView::Unknown(word)), screen),
{
    lemma_command_words();
    let line = text::trimmed(input);
    lemma_word_of(line, "/quit"@);
    lemma_word_of(line, "/exit"@);
    lemma_word_of(line, "/help"@);
    lemma_word_of(line, "/tokens"@);
    lemma_word_of(line, "/permissions"@);
    let after = command_effect(input, screen, usage).1;
    if line == "/help"@ || line == "/tokens"@ || line == "/permissions"@ {
        assert(after.2.take(screen.2.len() as int) =~= screen.2);
    }
    if line == word && (forall|i: int| 0 <= i < word.len() ==> (#[trigger] word[i]) != ' ') {
        lemma_word_of(line, word);
    }
}

/// The usage that is shown is that of the session: what went in, what came out, and what was
/// kept and read again, if there was any.
pub proof fn law_usage_is_shown(input: Seq<char>, screen: Screen, usage: SessionUsage)
    requires
        text::trimmed(input) == "/tokens"@,
    ensures
        ({
            let shown = command_effect(input, screen, usage).1.2;
            let n = screen.2.len() as int;
            let cached = usage.total_cache_creation > 0 || usage.total_cache_read > 0;
            &&& shown.len() == n + (if cached {
                5int
            } else {
                3int
            })
            &&& shown[n + 1] matches PrintedView::Line(line)
            &&& begins_with(line, "  Input:"@)
            &&& ends_with(line, tokens_text(usage.total_input))
            &&& shown[n + 2] matches PrintedView::Line(line)
            &&& begins_with(line, "  Output:"@)
            &&& ends_with(line, tokens_text(usage.total_output))
            &&& cached ==> (shown[n + 3] matches PrintedView::Line(line) && begins_with(
                line,
                "  Cache created:"@,
            ) && ends_with(line, tokens_text(usage.total_cache_creation)))
            &&& cached ==> (shown[n + 4] matches PrintedView::Line(line) && begins_with(
                line,
                "  Cache read:"@,
            ) && ends_with(line, tokens_text(usage.total_cache_read)))
        }),
{
    lemma_command_words();
    lemma_word_of(text::trimmed(input), "/tokens"@);
    reveal_strlit("  Input:          ");
    reveal_strlit("  Input:");
    reveal_strlit("  Output:         ");
    reveal_strlit("  Output:");
    reveal_strlit("  Cache created:  ");
    reveal_strlit("  Cache created:");
    reveal_strlit("  Cache read:     ");
    reveal_strlit("  Cache read:");
    lemma_labelled("  Input:          "@, "  Input:"@, tokens_text(usage.total_input));
    lemma_labelled("  Output:         "@, "  Output:"@, tokens_text(usage.total_output));
    lemma_labelled(
        "  Cache created:  "@,
        "  Cache created:"@,
        tokens_text(usage.total_cache_creation),
    );
    lemma_labelled("  Cache read:     "@, "  Cache read:"@, tokens_text(usage.total_cache_read));
}

proof fn lemma_labelled(label: Seq<char>, start: Seq<char>, value: Seq<char>)
    requires
        start.len() <= label.len(),
        forall|i: int| 0 <= i < start.len() ==> label[i] == #[trigger] start[i],
    ensures
        begins_with(label + value, start),
        ends_with(label + value, value),
{
    let line = label + value;
    assert(line.take(start.len() as int) =~= start);
    assert(line.skip(line.len() - value.len()) =~= value);
}

/// Small numbers of tokens are shown as they are, larger ones in thousands or millions.
pub proof fn law_size_of_token_numbers(n: u64)
    ensures
        n < 1_000 ==> text::digits_value(tokens_text(n)) == n,
        1_000 <= n < 999_950 ==> tokens_text(n).last() == 'K',
        n >= 999_950 ==> tokens_text(n).last() == 'M',
{
    reveal_strlit("K");
    reveal_strlit("M");
    crate::laws::texts::law_numbers_are_read_back(n as nat);
}

/// What is shown of a large number is that number to the nearest tenth of the unit: of a
/// thousand, and of a million for every number that a double holds exactly. There the last
/// digits of the double may move it by one token at most.
pub proof fn law_token_numbers_are_near(n: u64)
    ensures
        1_000 <= n < 999_950 ==> exists|t: nat|
            tokens_text(n) == #[trigger] in_tenths(t) + "K"@ && -1_000 <= 2 * (t * 1_000 - 10 * n)
                <= 1_000,
        999_950 <= n < MANTISSA_LIMIT ==> exists|t: nat|
            tokens_text(n) == #[trigger] in_tenths(t) + "M"@ && -1_000_020 <= 2 * (t * 1_000_000
                - 10 * n) <= 1_000_020,
{
    let x = n as nat;
    if 1_000 <= n < MANTISSA_LIMIT {
        assert(crate::commands::last_place(x, 1) == 1);
        assert(x / 1 == x && x % 1 == 0);
        assert(as_double(x) == x);
    }
    if 1_000 <= n < 999_950 {
        let t = quotient_tenths(x, 1_000);
        let p = lemma_tenths(x, 1_000);
        let half = (MANTISSA_LIMIT / 2) as int;
        assert(p > 10_000) by (nonlinear_arith)
            requires
                x * p >= 1_000 * half,
                half == 0x10_0000_0000_0000,
                0 < x < 999_950,
        ;
        let above = 2 * (t * 1_000 - 10 * x) - 1_000;
        let below = 2 * (10 * x - t * 1_000) - 1_000;
        assert(above <= 0) by (nonlinear_arith)
            requires
                above * p <= 10_000,
                p > 10_000,
        ;
        assert(below <= 0) by (nonlinear_arith)
            requires
                below * p <= 10_000,
                p > 10_000,
        ;
        assert(tokens_text(n) == in_tenths(t) + "K"@);
    }
    if 999_950 <= n < MANTISSA_LIMIT {
        let t = quotient_tenths(x, 1_000_000);
        let p = lemma_tenths(x, 1_000_000);
        let half = (MANTISSA_LIMIT / 2) as int;
        assert(p >= 500_000) by (nonlinear_arith)
            requires
                x * p >= 1_000_000 * half,
                half == 0x10_0000_0000_0000,
                0 < x < 0x20_0000_0000_0000,
        ;
        let above = 2 * (t * 1_000_000 - 10 * x) - 1_000_000;
        let below = 2 * (10 * x - t * 1_000_000) - 1_000_000;
        assert(above <= 20) by (nonlinear_arith)
            requires
                above * p <= 10_000_000,
                p >= 500_000,
        ;
        assert(below <= 20) by (nonlinear_arith)
            requires
                below * p <= 10_000_000,
                p >= 500_000,
        ;
        assert(tokens_text(n) == in_tenths(t) + "M"@);
    }
}

/// A number of tenths with one decimal.
pub open spec fn in_tenths(tenths: nat) -> Seq<char> {
    text::digits(tenths / 10) + "."@ + text::digits(tenths % 10)
}

proof fn lemma_nearest(n: nat, d: nat)
    requires
        d > 0,
    ensures
        -d <= 2 * (nearest(n, d) * d - n) <= d,
{
    let q = n / d;
    let r = n % d;
    vstd::arithmetic::div_mod::lemma_fundamental_div_mod(n as int, d as int);
    assert(n == d * q + r);
    assert(r < d);
    assert(q * d == d * q) by (nonlinear_arith);
    assert((q + 1) * d == d * q + d) by (nonlinear_arith);
}

proof fn lemma_doubled(x: nat, times: nat)
    ensures
        doubled(x, times) == x * doubled(1, times),
        doubled(1, times) > 0,
        times > 0 ==> doubled(2 * x, (times - 1) as nat) == doubled(x, times),
    decreases times,
{
    if times > 0 {
        lemma_doubled(x, (times - 1) as nat);
        let p = doubled(1, (times - 1) as nat);
        assert(2 * (x * p) == x * (2 * p)) by (nonlinear_arith);
        if times > 1 {
            assert(doubled(2 * x, (times - 1) as nat) == doubled(x, times)) by {
                lemma_doubled(2 * x, (times - 1) as nat);
                assert((2 * x) * p == 2 * (x * p)) by (nonlinear_arith);
            }
        }
    } else {
        assert(x * 1 == x);
    }
}

proof fn lemma_doublings(x: nat, bound: nat)
    requires
        x > 0,
    ensures
        doubled(x, doublings(x, bound)) >= bound,
    decreases
            if x >= bound {
                0
            } else {
                bound - x
            },
{
    if x < bound {
        lemma_doublings(2 * x, bound);
        lemma_doubled(x, doublings(x, bound));
    }
}

proof fn lemma_tenths(x: nat, divisor: nat) -> (p: nat)
    requires
        x > 0,
        divisor > 0,
    ensures
        ({
            let t = quotient_tenths(x, divisor);
            let half = (MANTISSA_LIMIT / 2) as nat;
            &&& x * p >= divisor * half
            &&& (2 * (t * divisor - 10 * x) - divisor) * p <= 10 * divisor
            &&& (2 * (10 * x - t * divisor) - divisor) * p <= 10 * divisor
        }),
{
    let half = (MANTISSA_LIMIT / 2) as nat;
    let shift = doublings(x, divisor * half);
    let p = doubled(1, shift);
    lemma_doublings(x, divisor * half);
    lemma_doubled(x, shift);
    let m = nearest(doubled(x, shift), divisor);
    let t = nearest(10 * m, p);
    assert(t == quotient_tenths(x, divisor));
    lemma_nearest(doubled(x, shift), divisor);
    lemma_nearest(10 * m, p);
    let xp = x * p;
    let md = m * divisor;
    let tp = t * p;
    assert(-divisor <= 2 * (md - xp) <= divisor);
    assert(-p <= 2 * (tp - 10 * m) <= p);
    let pd = p * divisor;
    assert(2 * (tp - 10 * m) * divisor <= pd) by (nonlinear_arith)
        requires
            2 * (tp - 10 * m) <= p,
            pd == p * divisor,
            divisor >= 0,
    ;
    assert(-pd <= 2 * (tp - 10 * m) * divisor) by (nonlinear_arith)
        requires
            -p <= 2 * (tp - 10 * m),
            pd == p * divisor,
            divisor >= 0,
    ;
    let td = t * divisor;
    assert((tp - 10 * m) * divisor == td * p - 10 * md) by (nonlinear_arith)
        requires
            tp == t * p,
            td == t * divisor,
            md == m * divisor,
    ;
    assert(2 * (tp - 10 * m) * divisor == 2 * ((tp - 10 * m) * divisor)) by (nonlinear_arith);
    assert((2 * (td - 10 * x) - divisor) * p == 2 * (td * p) - 20 * xp - pd) by (nonlinear_arith)
        requires
            xp == x * p,
            pd == p * divisor,
    ;
    assert((2 * (10 * x - td) - divisor) * p == 20 * xp - 2 * (td * p) - pd) by (nonlinear_arith)
        requires
            xp == x * p,
            pd == p * divisor,
    ;
    p
}

/// The help names every command.
pub proof fn law_help_names_the_commands(input: Seq<char>, screen: Screen, usage: SessionUsage)
    requires
        text::trimmed(input) == "/help"@,
    ensures
        ({
            let shown = command_effect(input, screen, usage).1.2;
            let n = screen.2.len() as int;
            &&& shown.len() == n + 8
            &&& names(shown[n + 1], "/help"@)
            &&& names(shown[n + 2], "/undo"@)
            &&& names(shown[n + 3], "/rewind N"@)
            &&& names(shown[n + 4], "/clear"@)
            &&& names(shown[n + 5], "/tokens"@)
            &&& names(shown[n + 6], "/permissions"@)
            &&& names(shown[n + 7], "/quit"@)
            &&& names(shown[n + 7], "/exit"@)
        }),
{
    lemma_command_words();
    lemma_word_of(text::trimmed(input), "/help"@);
    reveal_strlit("/help");
    reveal_strlit("/undo");
    reveal_strlit("/rewind N");
    reveal_strlit("/clear");
    reveal_strlit("/tokens");
    reveal_strlit("/permissions");
    reveal_strlit("/quit");
    reveal_strlit("/exit");
    reveal_strlit("  \x1b[1m/help\x1b[0m           Show this help message");
    reveal_strlit("  \x1b[1m/undo\x1b[0m           Remove the last user turn and its responses");
    reveal_strlit("  \x1b[1m/rewind N\x1b[0m       Go back N user turns");
    reveal_strlit("  \x1b[1m/clear\x1b[0m          Reset conversation to empty");
    reveal_strlit("  \x1b[1m/tokens\x1b[0m         Show session token usage");
    reveal_strlit("  \x1b[1m/permissions\x1b[0m    Show tool permission status");
    reveal_strlit("  \x1b[1m/quit\x1b[0m, \x1b[1m/exit\x1b[0m   Exit the session");
    lemma_stands("/help"@, "  \x1b[1m/help\x1b[0m           Show this help message"@, 6);
    lemma_stands(
        "/undo"@,
        "  \x1b[1m/undo\x1b[0m           Remove the last user turn and its responses"@,
        6,
    );
    lemma_stands("/rewind N"@, "  \x1b[1m/rewind N\x1b[0m       Go back N user turns"@, 6);
    lemma_stands("/clear"@, "  \x1b[1m/clear\x1b[0m          Reset conversation to empty"@, 6);
    lemma_stands("/tokens"@, "  \x1b[1m/tokens\x1b[0m         Show session token usage"@, 6);
    lemma_stands(
        "/permissions"@,
        "  \x1b[1m/permissions\x1b[0m    Show tool permission status"@,
        6,
    );
    lemma_stands(
        "/quit"@,
        "  \x1b[1m/quit\x1b[0m, \x1b[1m/exit\x1b[0m   Exit the session"@,
        6,
    );
    lemma_stands(
        "/exit"@,
        "  \x1b[1m/quit\x1b[0m, \x1b[1m/exit\x1b[0m   Exit the session"@,
        21,
    );
}

/// Whether a line that is shown holds a text.
pub open spec fn names(printed: PrintedView, what: Seq<char>) -> bool {
    printed matches PrintedView::Line(line) && part_of(what, line)
}

proof fn lemma_stands(part: Seq<char>, whole: Seq<char>, at: int)
    requires
        0 <= at <= whole.len() - part.len(),
        forall|i: int| 0 <= i < part.len() ==> whole[at + i] == #[trigger] part[i],
    ensures
        part_of(part, whole),
{
    assert(whole.subrange(at, at + part.len()) =~= part);
    assert(crate::laws::parts::stands_at(part, whole, at));
}

/// How far `/rewind` goes back: as many turns as the number behind it says, whatever the space
/// around that; one where there is no number; and none where it is zero.
pub proof fn law_how_far_to_go_back(
    input: Seq<char>,
    screen: Screen,
    usage: SessionUsage,
    rest: Seq<char>,
)
    requires
        text::trimmed(input) == "/rewind"@ + seq![' '] + rest,
    ensures
        text::usize_value(text::trimmed(rest)) is None ==> command_effect(input, screen, usage) == (
            Some(CommandResultView::Rewound),
            rewound(screen, 1),
        ),
        text::usize_value(text::trimmed(rest)) matches Some(turns) ==> (turns > 0
            ==> command_effect(input, screen, usage) == (
            Some(CommandResultView::Rewound),
            rewound(screen, turns as nat),
        )),
        text::usize_value(text::trimmed(rest)) == Some(0usize) ==> {
            let (result, after) = command_effect(input, screen, usage);
            &&& result == Some(CommandResultView::Continue)
            &&& after.0 == screen.0
            &&& after.1 == screen.1
            &&& after.2.drop_last() == screen.2
        },
{
    lemma_command_words();
    let line = text::trimmed(input);
    let start = "/rewind"@ + seq![' '];
    assert(line.take(start.len() as int) =~= start);
    lemma_word_of(line, "/rewind"@);
    text::lemma_until(line, ' ');
    let n = text::until(line, ' ') as int;
    assert(line.take(n).len() == 7);
    assert(line.skip(n + 1) =~= rest);
    if text::usize_value(text::trimmed(rest)) == Some(0usize) {
        assert(command_effect(input, screen, usage).1.2.drop_last() =~= screen.2);
    }
}

} // verus!
