//! Sessions as others see them: identifiers, states, signals and exit statuses.

use vstd::prelude::*;
use vstd::string::*;

use crate::text;

verus! {

/// The identifier of a session: the 128 bits of a UUID.
#[derive(Clone, Copy, Debug, PartialEq, Eq, Structural, Hash)]
pub struct SessionId(pub u128);

impl DeepView for SessionId {
    type V = SessionId;

    open spec fn deep_view(&self) -> SessionId {
        *self
    }
}

/// The power of sixteen that belongs to the hexadecimal digit `k` of 32.
pub open spec fn hex_weight(k: nat) -> nat
    decreases k,
{
    if k == 0 {
        1
    } else {
        16 * hex_weight((k - 1) as nat)
    }
}

/// The lower-case character of a hexadecimal digit.
pub open spec fn hex_digit(n: int) -> char {
    if n < 10 {
        (n + 48) as char
    } else {
        (n + 87) as char
    }
}

/// How many hyphens stand in front of position `i` of a hyphenated UUID.
pub open spec fn hyphens_before(i: int) -> int {
    if i <= 8 {
        0
    } else if i <= 13 {
        1
    } else if i <= 18 {
        2
    } else if i <= 23 {
        3
    } else {
        4
    }
}

/// A UUID in lower-case hexadecimal, hyphenated in groups of 8, 4, 4, 4 and 12.
pub open spec fn uuid_text(id: u128) -> Seq<char> {
    Seq::new(
        36,
        |i: int|
            if i == 8 || i == 13 || i == 18 || i == 23 {
                '-'
            } else {
                hex_digit(
                    (id as int / hex_weight((31 - (i - hyphens_before(i))) as nat) as int) % 16,
                )
            },
    )
}

/// What `uuid::Uuid::parse_str` makes of a text.
pub uninterp spec fn uuid_value(text: Seq<char>) -> Option<u128>;

/// Writes 128 bits as a UUID with `Uuid`'s `Display`: lower case, hyphenated.
/// `Uuid::parse_str` reads such a text back as the same bits.
#[verifier::external_body]
fn uuid_to_text(id: u128) -> (r: String)
    ensures
        r@ == uuid_text(id),
        uuid_value(r@) == Some(id),
{
    uuid::Uuid::from_u128(id).to_string()
}

/// Reads a UUID with `uuid::Uuid::parse_str`, which takes the simple, hyphenated,
/// braced and URN forms; what it makes of a text is named [`uuid_value`].
#[verifier::external_body]
fn uuid_from_text(text: &str) -> (r: Option<u128>)
    ensures
        r == uuid_value(text@),
{
    uuid::Uuid::parse_str(text).ok().map(|id| id.as_u128())
}

/// Draws a UUID with `uuid::Uuid::new_v4`. The bits are random but for the version,
/// which is four, and the variant, whose two upper bits are one and zero.
#[verifier::external_body]
fn random_uuid() -> (r: u128)
    ensures
        r / 0x1000_0000_0000_0000_0000 % 16 == 4,
        r / 0x4000_0000_0000_0000 % 4 == 2,
{
    uuid::Uuid::new_v4().as_u128()
}

/// The text in which a session identifier is shown when it is debugged.
pub open spec fn debug_id_text(id: SessionId) -> Seq<char> {
    "SessionId("@ + uuid_text(id.0) + ")"@
}

impl SessionId {
    /// A fresh random identifier: a UUID of version four.
    pub fn new() -> (r: SessionId)
        ensures
            r.0 / 0x1000_0000_0000_0000_0000 % 16 == 4,
            r.0 / 0x4000_0000_0000_0000 % 4 == 2,
    {
        SessionId(random_uuid())
    }

    /// The identifier as a hyphenated UUID. It is parsed back as the same identifier.
    pub fn text(&self) -> (r: String)
        ensures
            r@ == uuid_text(self.0),
            uuid_value(r@) == Some(self.0),
    {
        uuid_to_text(self.0)
    }

    /// The identifier with the name of its type around it. The text names this session.
    pub fn debug_text(&self) -> (r: String)
        ensures
            r@ == debug_id_text(*self),
            named_session(r@) == Some(*self),
    {
        let mut r = "SessionId(".to_owned();
        let id = uuid_to_text(self.0);
        r.append(id.as_str());
        r.append(")");
        proof {
            lemma_debug_text_names_the_session(*self);
        }
        r
    }
}

/// What stands between the name of the type and its closing bracket, if they are there.
pub open spec fn bare_id_text(text: Seq<char>) -> Seq<char> {
    if "SessionId("@.is_prefix_of(text) && text.len() > 10 && text.last() == ')' {
        text.subrange(10, text.len() - 1)
    } else {
        text
    }
}

/// The session that a text names: a UUID, bare or as [`SessionId::debug_text`] shows it.
pub open spec fn named_session(text: Seq<char>) -> Option<SessionId> {
    match uuid_value(bare_id_text(text)) {
        Some(id) => Some(SessionId(id)),
        None => None,
    }
}

/// The session that a text names.
pub fn parse_session_id(text: &str) -> (r: Option<SessionId>)
    ensures
        r == named_session(text@),
{
    proof {
        reveal_strlit("SessionId(");
    }
    let chars = text::chars_of(text);
    let bare = if text::starts_with(text, "SessionId(") && chars.len() > 10 && chars[chars.len()
        - 1] == ')' {
        text::text_between(&chars, 10, chars.len() - 1)
    } else {
        text.to_owned()
    };
    match uuid_from_text(bare.as_str()) {
        Some(id) => Some(SessionId(id)),
        None => None,
    }
}

proof fn lemma_debug_text_names_the_session(id: SessionId)
    requires
        uuid_value(uuid_text(id.0)) == Some(id.0),
    ensures
        named_session(debug_id_text(id)) == Some(id),
{
    reveal_strlit("SessionId(");
    reveal_strlit(")");
    let text = debug_id_text(id);
    assert("SessionId("@ =~= text.subrange(0, 10));
    assert(bare_id_text(text) =~= uuid_text(id.0));
}

/// What a session is doing.
#[derive(Clone, Copy, Debug, PartialEq, Eq, Structural)]
pub enum SessionState {
    /// Waiting for the next user message.
    Idle,
    /// A turn is in flight.
    Streaming,
    /// Waiting for an approval or stopped by the user.
    Paused,
    /// Suspended until a message or a child arrives.
    Waiting,
    /// Waiting for a tool result from outside.
    AwaitingToolResult,
    /// Gone.
    Destroyed,
}

impl DeepView for SessionState {
    type V = SessionState;

    open spec fn deep_view(&self) -> SessionState {
        *self
    }
}

/// A signal that one session sends to another.
#[derive(Clone, Copy, Debug, PartialEq, Eq, Structural)]
pub enum SessionSignal {
    Stop,
    Term,
    Kill,
    Continue,
}

impl DeepView for SessionSignal {
    type V = SessionSignal;

    open spec fn deep_view(&self) -> SessionSignal {
        *self
    }
}

/// How a child session ended.
#[derive(Debug)]
pub enum ExitStatus {
    Success { output: String },
    Failed { error: String },
    Cancelled,
}

/// The model of [`ExitStatus`].
#[verifier::ext_equal]
pub enum ExitStatusView {
    Success { output: Seq<char> },
    Failed { error: Seq<char> },
    Cancelled,
}

impl DeepView for ExitStatus {
    type V = ExitStatusView;

    open spec fn deep_view(&self) -> ExitStatusView {
        match *self {
            ExitStatus::Success { output } => ExitStatusView::Success {
                output: output.deep_view(),
            },
            ExitStatus::Failed { error } => ExitStatusView::Failed { error: error.deep_view() },
            ExitStatus::Cancelled => ExitStatusView::Cancelled,
        }
    }
}

impl Clone for ExitStatus {
    fn clone(&self) -> (r: Self)
        ensures
            r.deep_view() == self.deep_view(),
    {
        match self {
            ExitStatus::Success { output } => {
                ExitStatus::Success { output: output.clone() }
            },
            ExitStatus::Failed { error } => {
                ExitStatus::Failed { error: error.clone() }
            },
            ExitStatus::Cancelled => ExitStatus::Cancelled,
        }
    }
}

/// The name of a state as it is shown when it is debugged.
pub open spec fn state_text(state: SessionState) -> Seq<char> {
    match state {
        SessionState::Idle => "Idle"@,
        SessionState::Streaming => "Streaming"@,
        SessionState::Paused => "Paused"@,
        SessionState::Waiting => "Waiting"@,
        SessionState::AwaitingToolResult => "AwaitingToolResult"@,
        SessionState::Destroyed => "Destroyed"@,
    }
}

impl SessionState {
    /// The name of the state.
    pub fn name(&self) -> (r: &'static str)
        ensures
            r@ == state_text(*self),
    {
        match self {
            SessionState::Idle => "Idle",
            SessionState::Streaming => "Streaming",
            SessionState::Paused => "Paused",
            SessionState::Waiting => "Waiting",
            SessionState::AwaitingToolResult => "AwaitingToolResult",
            SessionState::Destroyed => "Destroyed",
        }
    }
}

/// Whether a signal interrupts the turn that is in flight.
pub open spec fn interrupts(signal: SessionSignal) -> bool {
    signal != SessionSignal::Continue
}

} // verus!
