//! The slash commands of an interactive conversation.

use vstd::prelude::*;
use vstd::string::*;

use crate::conversation::{
    entries_to_messages, law_messages_before_a_user_message, log_messages, ChatMessage,
    ChatMessageView, Entry, EntryView,
};
use crate::log::{ConversationLog, ConversationLogView};
use crate::permissions::PermissionManager;
use crate::text;

verus! {

broadcast use vstd::seq::group_seq_axioms;

/// Result of executing a slash command.
#[derive(Debug)]
pub enum CommandResult {
    /// Continue the conversation loop normally.
    Continue,
    /// Exit the conversation.
    Exit,
    /// The conversation was rewound: messages were rebuilt from entries.
    Rewound,
    /// The command was not recognized.
    Unknown(String),
}

/// The model of [`CommandResult`].
#[verifier::ext_equal]
pub enum CommandResultView {
    Continue,
    Exit,
    Rewound,
    Unknown(Seq<char>),
}

impl DeepView for CommandResult {
    type V = CommandResultView;

    open spec fn deep_view(&self) -> CommandResultView {
        match *self {
            CommandResult::Continue => CommandResultView::Continue,
            CommandResult::Exit => CommandResultView::Exit,
            CommandResult::Rewound => CommandResultView::Rewound,
            CommandResult::Unknown(value) => CommandResultView::Unknown(value.deep_view()),
        }
    }
}

/// Something that a command shows to the user.
#[derive(Debug)]
pub enum Printed {
    /// A line of text.
    Line(String),
    /// Which tools run without asking.
    PermissionStatus,
}

/// The model of [`Printed`].
#[verifier::ext_equal]
pub enum PrintedView {
    Line(Seq<char>),
    PermissionStatus,
}

impl DeepView for Printed {
    type V = PrintedView;

    open spec fn deep_view(&self) -> PrintedView {
        match *self {
            Printed::Line(value) => PrintedView::Line(value.deep_view()),
            Printed::PermissionStatus => PrintedView::PermissionStatus,
        }
    }
}

/// Session-level token usage accumulator.
#[derive(Debug)]
pub struct SessionUsage {
    pub total_input: u64,
    pub total_output: u64,
    pub total_cache_creation: u64,
    pub total_cache_read: u64,
}

impl Default for SessionUsage {
    fn default() -> (r: SessionUsage)
        ensures
            r == (SessionUsage {
                total_input: 0,
                total_output: 0,
                total_cache_creation: 0,
                total_cache_read: 0,
            }),
    {
        SessionUsage {
            total_input: 0,
            total_output: 0,
            total_cache_creation: 0,
            total_cache_read: 0,
        }
    }
}

impl SessionUsage {
    /// Adds the usage of a turn.
    pub fn add(&mut self, input: u64, output: u64, cache_creation: u64, cache_read: u64)
        requires
            old(self).total_input + input <= u64::MAX,
            old(self).total_output + output <= u64::MAX,
            old(self).total_cache_creation + cache_creation <= u64::MAX,
            old(self).total_cache_read + cache_read <= u64::MAX,
        ensures
            final(self).total_input == old(self).total_input + input,
            final(self).total_output == old(self).total_output + output,
            final(self).total_cache_creation == old(self).total_cache_creation + cache_creation,
            final(self).total_cache_read == old(self).total_cache_read + cache_read,
    {
        self.total_input = self.total_input + input;
        self.total_output = self.total_output + output;
        self.total_cache_creation = self.total_cache_creation + cache_creation;
        self.total_cache_read = self.total_cache_read + cache_read;
    }
}

/// The integer nearest to a quotient. Of two that are equally near, the even one.
pub open spec fn nearest(numerator: nat, denominator: nat) -> nat
    recommends
        denominator > 0,
{
    let quotient = numerator / denominator;
    let twice = 2 * (numerator % denominator);
    if twice < denominator || (twice == denominator && quotient % 2 == 0) {
        quotient
    } else {
        quotient + 1
    }
}

/// A number doubled a number of times.
pub open spec fn doubled(x: nat, times: nat) -> nat
    decreases times,
{
    if times == 0 {
        x
    } else {
        2 * doubled(x, (times - 1) as nat)
    }
}

/// How often a number is doubled until it reaches a bound.
pub open spec fn doublings(x: nat, bound: nat) -> nat
    decreases
            if x >= bound {
                0
            } else {
                bound - x
            },
{
    if x == 0 || x >= bound {
        0
    } else {
        1 + doublings(2 * x, bound)
    }
}

/// A mantissa of a double has 53 bits.
pub const MANTISSA_LIMIT: u128 = 0x20_0000_0000_0000;

/// The smallest power of two, times a start, by which a number is less than a multiple of
/// the mantissa's limit.
pub open spec fn last_place(n: nat, start: nat) -> nat
    decreases n - start,
{
    if start == 0 || n < start * MANTISSA_LIMIT {
        start
    } else {
        last_place(n, 2 * start)
    }
}

/// The double that is nearest to an integer.
pub open spec fn as_double(n: nat) -> nat {
    nearest(n, last_place(n, 1)) * last_place(n, 1)
}

/// The tenths of the double that is nearest to a quotient, for a quotient of at least a
/// half. The quotient has a mantissa of 53 bits, and is then rounded to one decimal.
pub open spec fn quotient_tenths(x: nat, divisor: nat) -> nat {
    let half = (MANTISSA_LIMIT / 2) as nat;
    let shift = doublings(x, divisor * half);
    let mantissa = nearest(doubled(x, shift), divisor);
    nearest(10 * mantissa, doubled(1, shift))
}

/// A number of tenths with one decimal.
pub open spec fn tenths_text(tenths: nat) -> Seq<char> {
    text::digits(tenths / 10) + "."@ + text::digits(tenths % 10)
}

/// A number of tokens as it is shown: in thousands or millions with one decimal, as the
/// division of doubles gives it, or as it is.
pub open spec fn tokens_text(n: u64) -> Seq<char> {
    if n >= 999_950 {
        tenths_text(quotient_tenths(as_double(n as nat), 1_000_000)) + "M"@
    } else if n >= 1_000 {
        tenths_text(quotient_tenths(as_double(n as nat), 1_000)) + "K"@
    } else {
        text::digits(n as nat)
    }
}

/// The integer nearest to a quotient, the even one of two that are equally near.
fn nearest_quotient(numerator: u128, denominator: u128) -> (r: u128)
    requires
        0 < denominator < 0x1_0000_0000_0000_0000_0000_0000_0000,
        numerator < 0x1_0000_0000_0000_0000_0000_0000_0000,
    ensures
        r == nearest(numerator as nat, denominator as nat),
        r <= numerator / denominator + 1,
{
    let quotient: u128 = numerator / denominator;
    let remainder: u128 = numerator % denominator;
    assert(quotient <= numerator) by (nonlinear_arith)
        requires
            quotient == numerator / denominator,
            denominator > 0,
    ;
    if 2 * remainder < denominator || (2 * remainder == denominator && quotient % 2 == 0) {
        quotient
    } else {
        quotient + 1
    }
}

/// The double that is nearest to an integer.
fn nearest_double(n: u64) -> (r: u128)
    ensures
        r == as_double(n as nat),
        n < MANTISSA_LIMIT ==> r == n,
        n <= 2 * r,
        r <= MANTISSA_LIMIT * 0x1_0000,
{
    let wide: u128 = n as u128;
    let mut unit: u128 = 1;
    while wide >= unit * MANTISSA_LIMIT
        invariant
            wide == n,
            1 <= unit <= 0x1_0000,
            unit > 1 ==> unit * (MANTISSA_LIMIT / 2) <= n,
            n < MANTISSA_LIMIT ==> unit == 1,
            last_place(n as nat, 1) == last_place(n as nat, unit as nat),
        decreases n - unit,
    {
        assert(2 * unit * (MANTISSA_LIMIT / 2) == unit * MANTISSA_LIMIT) by (nonlinear_arith)
            requires
                MANTISSA_LIMIT == 0x20_0000_0000_0000,
        ;
        unit = 2 * unit;
    }
    let mantissa = nearest_quotient(wide, unit);
    proof {
        assert(wide / unit < MANTISSA_LIMIT) by (nonlinear_arith)
            requires
                0 < unit,
                wide < unit * MANTISSA_LIMIT,
        ;
        assert(mantissa * unit <= MANTISSA_LIMIT * 0x1_0000) by (nonlinear_arith)
            requires
                0 <= mantissa <= MANTISSA_LIMIT,
                1 <= unit <= 0x1_0000,
        ;
    }
    let r: u128 = mantissa * unit;
    proof {
        if unit == 1 {
            assert(wide as nat / 1 == wide && wide as nat % 1 == 0);
        } else {
            let q = wide as int / unit as int;
            let m = wide as int % unit as int;
            assert(wide == unit * q + m && 0 <= m < unit && q >= 1) by (nonlinear_arith)
                requires
                    q == wide as int / unit as int,
                    m == wide as int % unit as int,
                    0 < unit <= wide,
            ;
            assert(unit * q <= mantissa * unit) by (nonlinear_arith)
                requires
                    0 <= q <= mantissa,
                    unit > 0,
            ;
            assert(unit <= unit * q) by (nonlinear_arith)
                requires
                    q >= 1,
                    unit > 0,
            ;
        }
    }
    r
}

/// The tenths of the double that is nearest to a quotient.
fn tenths_of_quotient(x: u128, divisor: u128) -> (r: u64)
    requires
        0 < x <= divisor * 0x10_0000_0000_0000,
        1_000 <= divisor <= 1_000_000,
    ensures
        r == quotient_tenths(x as nat, divisor as nat),
{
    let half: u128 = 0x10_0000_0000_0000;
    let bound: u128 = divisor * half;
    let mut shift: Ghost<nat> = Ghost(0);
    let mut y: u128 = x;
    let mut unit: u128 = 1;
    while y < bound
        invariant
            bound <= 1_000_000 * 0x10_0000_0000_0000,
            bound >= 1_000 * 0x10_0000_0000_0000,
            0 < y < 2 * bound,
            y == doubled(x as nat, shift@),
            unit == doubled(1, shift@),
            y == x * unit,
            1 <= unit <= y,
            doublings(x as nat, bound as nat) == shift@ + doublings(y as nat, bound as nat),
        decreases
                if y >= bound {
                    0
                } else {
                    bound - y
                },
    {
        assert(2 * (x * unit) == x * (2 * unit)) by (nonlinear_arith);
        y = 2 * y;
        unit = 2 * unit;
        proof {
            shift@ = shift@ + 1;
        }
    }
    let mantissa = nearest_quotient(y, divisor);
    proof {
        assert(y / divisor <= 2 * half) by (nonlinear_arith)
            requires
                y < 2 * (divisor * half),
                divisor > 0,
        ;
    }
    let tenths = nearest_quotient(10 * mantissa, unit);
    proof {
        let ten: int = 10 * mantissa;
        assert(ten / unit as int <= ten) by (nonlinear_arith)
            requires
                unit >= 1,
                ten >= 0,
        ;
    }
    tenths as u64
}

/// A number of tenths with one decimal.
fn show_tenths(tenths: u64) -> (r: String)
    ensures
        r@ == tenths_text(tenths as nat),
{
    let mut r = text::decimal(tenths / 10);
    r.append(".");
    r.append(text::decimal(tenths % 10).as_str());
    r
}

/// A number of tokens as it is shown.
pub fn format_tokens(n: u64) -> (r: String)
    ensures
        r@ == tokens_text(n),
{
    if n >= 999_950 {
        let mut r = show_tenths(tenths_of_quotient(nearest_double(n), 1_000_000));
        r.append("M");
        r
    } else if n >= 1_000 {
        let mut r = show_tenths(tenths_of_quotient(nearest_double(n), 1_000));
        r.append("K");
        r
    } else {
        text::decimal(n)
    }
}

/// Where the last user turns begin, a number of them counted from the end.
pub open spec fn turn_start(entries: Seq<EntryView>, turns: nat) -> Option<nat>
    recommends
        turns > 0,
    decreases entries.len(),
{
    if entries.len() == 0 {
        None
    } else if entries.last() is UserMessage {
        if turns <= 1 {
            Some((entries.len() - 1) as nat)
        } else {
            turn_start(entries.drop_last(), (turns - 1) as nat)
        }
    } else {
        turn_start(entries.drop_last(), turns)
    }
}

proof fn lemma_turn_start(entries: Seq<EntryView>, turns: nat)
    requires
        turns > 0,
    ensures
        turn_start(entries, turns) matches Some(at) ==> at < entries.len()
            && entries[at as int] is UserMessage,
    decreases entries.len(),
{
    if entries.len() > 0 {
        if entries.last() is UserMessage {
            if turns > 1 {
                lemma_turn_start(entries.drop_last(), (turns - 1) as nat);
            }
        } else {
            lemma_turn_start(entries.drop_last(), turns);
        }
    }
}

/// Rewinding some turns and then some more is rewinding all of them at once.
pub proof fn law_rewind_in_steps(entries: Seq<EntryView>, first: nat, second: nat)
    requires
        first > 0,
        second > 0,
    ensures
        turn_start(entries, first + second) == (match turn_start(entries, first) {
            Some(at) => turn_start(entries.take(at as int), second),
            None => None,
        }),
    decreases entries.len(),
{
    lemma_turn_start(entries, first);
    if entries.len() > 0 {
        let front = entries.drop_last();
        if entries.last() is UserMessage {
            if first == 1 {
                assert(entries.take(entries.len() - 1) =~= front);
            } else {
                law_rewind_in_steps(front, (first - 1) as nat, second);
                lemma_turn_start(front, (first - 1) as nat);
                if let Some(at) = turn_start(front, (first - 1) as nat) {
                    assert(entries.take(at as int) =~= front.take(at as int));
                }
            }
        } else {
            law_rewind_in_steps(front, first, second);
            lemma_turn_start(front, first);
            if let Some(at) = turn_start(front, first) {
                assert(entries.take(at as int) =~= front.take(at as int));
            }
        }
    }
}

/// What a rewind shows.
pub open spec fn rewound_text(turns: nat, left: nat) -> Seq<char> {
    "\x1b[33mRewound "@ + text::digits(turns) + " turn"@ + (if turns == 1 {
        ""@
    } else {
        "s"@
    }) + ". Conversation now has "@ + text::digits(left) + " entries.\x1b[0m"@
}

/// A command's part in the conversation: its entries, its messages and what was shown.
pub type Screen = (Seq<EntryView>, Seq<ChatMessageView>, Seq<PrintedView>);

/// The conversation after going back a number of user turns. The messages are those of the
/// entries that are left. Nothing happens if there are not so many turns.
pub open spec fn rewound(screen: Screen, turns: nat) -> Screen {
    match turn_start(screen.0, turns) {
        Some(at) => (
            screen.0.take(at as int),
            log_messages(screen.0.take(at as int)),
            screen.2.push(PrintedView::Line(rewound_text(turns, at))),
        ),
        None => (
            screen.0,
            screen.1,
            screen.2.push(PrintedView::Line("\x1b[33mNothing to rewind.\x1b[0m"@)),
        ),
    }
}

/// Where the messages are those of the entries, going back leaves it so, and leaves a
/// beginning of the entries and a beginning of the messages.
pub proof fn law_rewind_keeps_the_beginning(screen: Screen, turns: nat)
    requires
        turns > 0,
        screen.1 == log_messages(screen.0),
    ensures
        rewound(screen, turns).1 == log_messages(rewound(screen, turns).0),
        rewound(screen, turns).0.is_prefix_of(screen.0),
        rewound(screen, turns).1.is_prefix_of(screen.1),
{
    lemma_turn_start(screen.0, turns);
    match turn_start(screen.0, turns) {
        Some(at) => {
            law_messages_before_a_user_message(screen.0, at as int);
            assert(screen.0.take(at as int) =~= screen.0.subrange(0, at as int));
        },
        None => {
            assert(screen.0 =~= screen.0.subrange(0, screen.0.len() as int));
            assert(screen.1 =~= screen.1.subrange(0, screen.1.len() as int));
        },
    }
}

/// The lines that show the usage of a session.
pub open spec fn usage_lines(usage: SessionUsage) -> Seq<PrintedView> {
    let first = seq![
        PrintedView::Line("\x1b[1;36mSession token usage:\x1b[0m"@),
        PrintedView::Line("  Input:          "@ + tokens_text(usage.total_input)),
        PrintedView::Line("  Output:         "@ + tokens_text(usage.total_output)),
    ];
    if usage.total_cache_creation > 0 || usage.total_cache_read > 0 {
        first.push(
            PrintedView::Line("  Cache created:  "@ + tokens_text(usage.total_cache_creation)),
        ).push(PrintedView::Line("  Cache read:     "@ + tokens_text(usage.total_cache_read)))
    } else {
        first
    }
}

/// The lines of the help.
pub open spec fn help_lines() -> Seq<PrintedView> {
    seq![
        PrintedView::Line("\x1b[1;36mAvailable commands:\x1b[0m"@),
        PrintedView::Line("  \x1b[1m/help\x1b[0m           Show this help message"@),
        PrintedView::Line(
            "  \x1b[1m/undo\x1b[0m           Remove the last user turn and its responses"@,
        ),
        PrintedView::Line("  \x1b[1m/rewind N\x1b[0m       Go back N user turns"@),
        PrintedView::Line("  \x1b[1m/clear\x1b[0m          Reset conversation to empty"@),
        PrintedView::Line("  \x1b[1m/tokens\x1b[0m         Show session token usage"@),
        PrintedView::Line("  \x1b[1m/permissions\x1b[0m    Show tool permission status"@),
        PrintedView::Line("  \x1b[1m/quit\x1b[0m, \x1b[1m/exit\x1b[0m   Exit the session"@),
    ]
}

/// The first word of a command.
pub open spec fn command_word(input: Seq<char>) -> Seq<char> {
    input.take(text::until(input, ' ') as int)
}

/// What follows the first word of a command.
pub open spec fn command_argument(input: Seq<char>) -> Seq<char> {
    let end = text::until(input, ' ');
    if end < input.len() {
        text::trimmed(input.skip(end as int + 1))
    } else {
        Seq::empty()
    }
}

/// What a line of input does. It is a command if it begins with a slash.
pub open spec fn command_effect(input: Seq<char>, screen: Screen, usage: SessionUsage) -> (
    Option<CommandResultView>,
    Screen,
) {
    let line = text::trimmed(input);
    let word = command_word(line);
    if line.len() == 0 || line[0] != '/' {
        (None, screen)
    } else if word == "/help"@ {
        (Some(CommandResultView::Continue), (screen.0, screen.1, screen.2 + help_lines()))
    } else if word == "/quit"@ || word == "/exit"@ {
        (Some(CommandResultView::Exit), screen)
    } else if word == "/undo"@ {
        (Some(CommandResultView::Rewound), rewound(screen, 1))
    } else if word == "/rewind"@ {
        let turns = match text::usize_value(command_argument(line)) {
            Some(turns) => turns,
            None => 1,
        };
        if turns == 0 {
            (
                Some(CommandResultView::Continue),
                (
                    screen.0,
                    screen.1,
                    screen.2.push(PrintedView::Line("\x1b[33mNothing to rewind.\x1b[0m"@)),
                ),
            )
        } else {
            (Some(CommandResultView::Rewound), rewound(screen, turns as nat))
        }
    } else if word == "/clear"@ {
        (
            Some(CommandResultView::Rewound),
            (
                Seq::empty(),
                Seq::empty(),
                screen.2.push(PrintedView::Line("\x1b[33mConversation cleared.\x1b[0m"@)),
            ),
        )
    } else if word == "/tokens"@ {
        (Some(CommandResultView::Continue), (screen.0, screen.1, screen.2 + usage_lines(usage)))
    } else if word == "/permissions"@ {
        (
            Some(CommandResultView::Continue),
            (screen.0, screen.1, screen.2.push(PrintedView::PermissionStatus)),
        )
    } else {
        (Some(CommandResultView::Unknown(word)), screen)
    }
}

/// No line of input brings the messages out of step with the entries.
pub proof fn law_commands_keep_messages_in_step(
    input: Seq<char>,
    screen: Screen,
    usage: SessionUsage,
)
    requires
        screen.1 == log_messages(screen.0),
    ensures
        command_effect(input, screen, usage).1.1 == log_messages(
            command_effect(input, screen, usage).1.0,
        ),
{
    assert(log_messages(Seq::empty()) =~= Seq::empty());
}

/// Shows a line.
fn show(printed: &mut Vec<Printed>, line: String)
    ensures
        final(printed).deep_view() == old(printed).deep_view().push(PrintedView::Line(line@)),
{
    let ghost before = printed.deep_view();
    printed.push(Printed::Line(line));
    assert(printed.deep_view() =~= before.push(PrintedView::Line(line@)));
}

/// Where the last user turns begin.
fn find_turn_start(entries: &Vec<Entry>, turns: usize) -> (r: Option<usize>)
    requires
        turns > 0,
    ensures
        match r {
            Some(at) => turn_start(entries.deep_view(), turns as nat) == Some(at as nat) && at
                < entries@.len(),
            None => turn_start(entries.deep_view(), turns as nat) is None,
        },
{
    let ghost all = entries.deep_view();
    let mut left: usize = turns;
    let mut i: usize = entries.len();
    assert(all.take(i as int) =~= all);
    while i > 0
        invariant
            i <= entries@.len(),
            left > 0,
            all == entries.deep_view(),
            turn_start(all, turns as nat) == turn_start(all.take(i as int), left as nat),
        decreases i,
    {
        assert(all.take(i as int).drop_last() =~= all.take(i - 1));
        assert(all.take(i as int).last() == entries@[i - 1].deep_view());
        i = i - 1;
        if let Entry::UserMessage { .. } = &entries[i] {
            if left == 1 {
                return Some(i);
            }
            left = left - 1;
        }
    }
    None
}

/// Goes back a number of user turns.
pub fn rewind(
    conv_log: &mut ConversationLog,
    messages: &mut Vec<ChatMessage>,
    n: usize,
    printed: &mut Vec<Printed>,
)
    requires
        n > 0,
    ensures
        ({
            let after = rewound(
                (
                    old(conv_log).entries.deep_view(),
                    old(messages).deep_view(),
                    old(printed).deep_view(),
                ),
                n as nat,
            );
            &&& final(conv_log).deep_view() == ConversationLogView {
                entries: after.0,
                ..old(conv_log).deep_view()
            }
            &&& final(messages).deep_view() == after.1
            &&& final(printed).deep_view() == after.2
        }),
{
    let ghost before = conv_log.entries.deep_view();
    match find_turn_start(&conv_log.entries, n) {
        Some(target) => {
            conv_log.entries.truncate(target);
            assert(conv_log.entries.deep_view() =~= before.take(target as int));
            let kept = conv_log.entries.as_slice();
            assert(kept.deep_view() =~= conv_log.entries.deep_view());
            *messages = entries_to_messages(kept);
            let mut line = "\x1b[33mRewound ".to_owned();
            line.append(text::decimal(n as u64).as_str());
            line.append(" turn");
            line.append(if n == 1 { "" } else { "s" });
            line.append(". Conversation now has ");
            line.append(text::decimal(conv_log.entries.len() as u64).as_str());
            line.append(" entries.\x1b[0m");
            show(printed, line);
        },
        None => {
            show(printed, "\x1b[33mNothing to rewind.\x1b[0m".to_owned());
        },
    }
}

/// Shows the help.
fn print_help(printed: &mut Vec<Printed>)
    ensures
        final(printed).deep_view() == old(printed).deep_view() + help_lines(),
{
    let ghost before = printed.deep_view();
    show(printed, "\x1b[1;36mAvailable commands:\x1b[0m".to_owned());
    show(printed, "  \x1b[1m/help\x1b[0m           Show this help message".to_owned());
    show(
        printed,
        "  \x1b[1m/undo\x1b[0m           Remove the last user turn and its responses".to_owned(),
    );
    show(printed, "  \x1b[1m/rewind N\x1b[0m       Go back N user turns".to_owned());
    show(printed, "  \x1b[1m/clear\x1b[0m          Reset conversation to empty".to_owned());
    show(printed, "  \x1b[1m/tokens\x1b[0m         Show session token usage".to_owned());
    show(printed, "  \x1b[1m/permissions\x1b[0m    Show tool permission status".to_owned());
    show(
        printed,
        "  \x1b[1m/quit\x1b[0m, \x1b[1m/exit\x1b[0m   Exit the session".to_owned(),
    );
    assert(printed.deep_view() =~= before + help_lines());
}

/// A line with a label and a number of tokens.
fn usage_line(label: &str, tokens: u64) -> (r: String)
    ensures
        r@ == label@ + tokens_text(tokens),
{
    let mut line = label.to_owned();
    line.append(format_tokens(tokens).as_str());
    line
}

/// Shows the usage of the session.
pub fn print_token_usage(usage: &SessionUsage, printed: &mut Vec<Printed>)
    ensures
        final(printed).deep_view() == old(printed).deep_view() + usage_lines(*usage),
{
    let ghost before = printed.deep_view();
    show(printed, "\x1b[1;36mSession token usage:\x1b[0m".to_owned());
    show(printed, usage_line("  Input:          ", usage.total_input));
    show(printed, usage_line("  Output:         ", usage.total_output));
    if usage.total_cache_creation > 0 || usage.total_cache_read > 0 {
        show(printed, usage_line("  Cache created:  ", usage.total_cache_creation));
        show(printed, usage_line("  Cache read:     ", usage.total_cache_read));
    }
    assert(printed.deep_view() =~= before + usage_lines(*usage));
}

/// The one-line usage summary after a turn.
pub fn print_turn_usage(input: u64, output: u64, session: &SessionUsage) -> (r: String)
    ensures
        r@ == "\x1b[90m["@ + tokens_text(input) + " in \u{2192} "@ + tokens_text(output)
            + " out | session: "@ + tokens_text(session.total_input) + " in \u{2192} "@
            + tokens_text(session.total_output) + " out]\x1b[0m"@,
{
    let mut line = usage_line("\x1b[90m[", input);
    line.append(usage_line(" in \u{2192} ", output).as_str());
    line.append(usage_line(" out | session: ", session.total_input).as_str());
    line.append(usage_line(" in \u{2192} ", session.total_output).as_str());
    line.append(" out]\x1b[0m");
    assert(line@ =~= "\x1b[90m["@ + tokens_text(input) + " in \u{2192} "@ + tokens_text(output)
        + " out | session: "@ + tokens_text(session.total_input) + " in \u{2192} "@ + tokens_text(
        session.total_output,
    ) + " out]\x1b[0m"@);
    line
}

/// The first word of a command and what follows it.
fn split_command(line: &str) -> (r: (String, String))
    ensures
        r.0@ == command_word(line@),
        r.1@ == command_argument(line@),
{
    let chars = text::chars_of(line);
    let mut end: usize = 0;
    proof {
        text::lemma_until(line@, ' ');
    }
    while end < chars.len() && chars[end] != ' '
        invariant
            chars@ == line@,
            end <= chars@.len(),
            end <= text::until(line@, ' '),
            text::until(line@, ' ') < line@.len() ==> line@[text::until(line@, ' ') as int] == ' ',
            forall|i: int| 0 <= i < text::until(line@, ' ') ==> line@[i] != ' ',
            text::until(line@, ' ') <= line@.len(),
        decreases chars@.len() - end,
    {
        end = end + 1;
    }
    assert(end == text::until(line@, ' '));
    let word = text::text_between(&chars, 0, end);
    assert(word@ =~= command_word(line@));
    if end < chars.len() {
        let rest = text::text_between(&chars, end + 1, chars.len());
        assert(rest@ =~= line@.skip(end as int + 1));
        (word, text::trim(rest.as_str()))
    } else {
        let rest = "".to_owned();
        proof {
            reveal_strlit("");
        }
        assert(rest@ =~= command_argument(line@));
        (word, rest)
    }
}

/// Tries to handle a slash command. There is no result if the input is not a command.
pub fn handle_command(
    input: &str,
    conv_log: &mut ConversationLog,
    messages: &mut Vec<ChatMessage>,
    session_usage: &SessionUsage,
    _permissions: &PermissionManager,
    printed: &mut Vec<Printed>,
) -> (r: Option<CommandResult>)
    ensures
        ({
            let effect = command_effect(
                input@,
                (
                    old(conv_log).entries.deep_view(),
                    old(messages).deep_view(),
                    old(printed).deep_view(),
                ),
                *session_usage,
            );
            &&& r.deep_view() == effect.0
            &&& final(conv_log).deep_view() == ConversationLogView {
                entries: effect.1.0,
                ..old(conv_log).deep_view()
            }
            &&& final(messages).deep_view() == effect.1.1
            &&& final(printed).deep_view() == effect.1.2
        }),
{
    let line = text::trim(input);
    proof {
        reveal_strlit("/");
    }
    let is_command = text::starts_with(line.as_str(), "/");
    proof {
        let slash = "/"@;
        if line@.len() > 0 && line@[0] == '/' {
            assert(slash =~= line@.subrange(0, 1));
        } else if is_command {
            assert(line@.subrange(0, 1)[0] == line@[0]);
        }
    }
    if !is_command {
        return None;
    }
    let (cmd, arg) = split_command(line.as_str());
    let word = cmd.as_str();
    if text::same(word, "/help") {
        print_help(printed);
        Some(CommandResult::Continue)
    } else if text::same(word, "/quit") || text::same(word, "/exit") {
        Some(CommandResult::Exit)
    } else if text::same(word, "/undo") {
        rewind(conv_log, messages, 1, printed);
        Some(CommandResult::Rewound)
    } else if text::same(word, "/rewind") {
        let n: usize = match text::parse_usize(arg.as_str()) {
            Some(n) => n,
            None => 1,
        };
        if n == 0 {
            show(printed, "\x1b[33mNothing to rewind.\x1b[0m".to_owned());
            return Some(CommandResult::Continue);
        }
        rewind(conv_log, messages, n, printed);
        Some(CommandResult::Rewound)
    } else if text::same(word, "/clear") {
        conv_log.entries.clear();
        messages.clear();
        assert(conv_log.entries.deep_view() =~= Seq::empty());
        assert(messages.deep_view() =~= Seq::empty());
        show(printed, "\x1b[33mConversation cleared.\x1b[0m".to_owned());
        Some(CommandResult::Rewound)
    } else if text::same(word, "/tokens") {
        print_token_usage(session_usage, printed);
        Some(CommandResult::Continue)
    } else if text::same(word, "/permissions") {
        let ghost before = printed.deep_view();
        printed.push(Printed::PermissionStatus);
        assert(printed.deep_view() =~= before.push(PrintedView::PermissionStatus));
        Some(CommandResult::Continue)
    } else {
        Some(CommandResult::Unknown(cmd))
    }
}

} // verus!
