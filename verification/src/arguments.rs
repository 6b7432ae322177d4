//! The arguments of a tool call: the members of a JSON object.

use vstd::prelude::*;
use vstd::string::*;

use crate::session::hex_digit;
use crate::text;

verus! {

broadcast use vstd::seq::group_seq_axioms;

/// A character as it stands in a JSON string literal.
pub open spec fn json_char(c: char) -> Seq<char> {
    if c == '"' || c == '\\' {
        seq!['\\', c]
    } else if c == '\u{8}' {
        seq!['\\', 'b']
    } else if c == '\t' {
        seq!['\\', 't']
    } else if c == '\n' {
        seq!['\\', 'n']
    } else if c == '\u{c}' {
        seq!['\\', 'f']
    } else if c == '\r' {
        seq!['\\', 'r']
    } else if 32 > c as int {
        seq!['\\', 'u', '0', '0', hex_digit(c as int / 16), hex_digit(c as int % 16)]
    } else {
        seq![c]
    }
}

/// The characters of a text as they stand in a JSON string literal.
pub open spec fn json_chars(content: Seq<char>) -> Seq<char>
    decreases content.len(),
{
    if content.len() == 0 {
        Seq::empty()
    } else {
        json_chars(content.drop_last()) + json_char(content.last())
    }
}

/// A text as a JSON string literal.
pub open spec fn json_quoted(content: Seq<char>) -> Seq<char> {
    seq!['"'] + json_chars(content) + seq!['"']
}

/// Writes a text as a JSON string literal with the `Display` of
/// `serde_json::Value::String`: between quotes, with quotes, backslashes and control
/// characters escaped and everything else as it is.
#[verifier::external_body]
pub(crate) fn quote(content: &str) -> (r: String)
    ensures
        r@ == json_quoted(content@),
{
    serde_json::Value::String(content.to_string()).to_string()
}

/// The value of a member.
#[derive(Debug)]
pub enum ArgumentValue {
    /// A string.
    Text(String),
    /// A boolean.
    Flag(bool),
    /// A number that is a `u64`.
    Count(u64),
    /// The JSON text of any other value.
    Other(String),
}

/// The model of [`ArgumentValue`].
#[verifier::ext_equal]
pub enum ArgumentValueView {
    Text(Seq<char>),
    Flag(bool),
    Count(u64),
    Other(Seq<char>),
}

impl DeepView for ArgumentValue {
    type V = ArgumentValueView;

    open spec fn deep_view(&self) -> ArgumentValueView {
        match *self {
            ArgumentValue::Text(value) => ArgumentValueView::Text(value.deep_view()),
            ArgumentValue::Flag(value) => ArgumentValueView::Flag(value),
            ArgumentValue::Count(value) => ArgumentValueView::Count(value),
            ArgumentValue::Other(value) => ArgumentValueView::Other(value.deep_view()),
        }
    }
}

impl Clone for ArgumentValue {
    fn clone(&self) -> (r: Self)
        ensures
            r.deep_view() == self.deep_view(),
    {
        match self {
            ArgumentValue::Text(value) => ArgumentValue::Text(value.clone()),
            ArgumentValue::Flag(value) => ArgumentValue::Flag(*value),
            ArgumentValue::Count(value) => ArgumentValue::Count(*value),
            ArgumentValue::Other(value) => ArgumentValue::Other(value.clone()),
        }
    }
}

/// A member of a JSON object.
#[derive(Debug)]
pub struct Member {
    pub key: String,
    pub value: ArgumentValue,
}

/// The model of [`Member`].
#[verifier::ext_equal]
pub struct MemberView {
    pub key: Seq<char>,
    pub value: ArgumentValueView,
}

impl DeepView for Member {
    type V = MemberView;

    open spec fn deep_view(&self) -> MemberView {
        MemberView {
            key: self.key.deep_view(),
            value: self.value.deep_view(),
        }
    }
}

impl Clone for Member {
    fn clone(&self) -> (r: Self)
        ensures
            r.deep_view() == self.deep_view(),
    {
        Member {
            key: self.key.clone(),
            value: self.value.clone(),
        }
    }
}

/// The arguments of a tool call.
#[derive(Debug)]
pub enum Arguments {
    /// An object: its members in the order in which they are written.
    Object(Vec<Member>),
    /// The JSON text of any other value.
    Other(String),
}

/// The model of [`Arguments`].
#[verifier::ext_equal]
pub enum ArgumentsView {
    Object(Seq<MemberView>),
    Other(Seq<char>),
}

impl DeepView for Arguments {
    type V = ArgumentsView;

    open spec fn deep_view(&self) -> ArgumentsView {
        match *self {
            Arguments::Object(value) => ArgumentsView::Object(value.deep_view()),
            Arguments::Other(value) => ArgumentsView::Other(value.deep_view()),
        }
    }
}

impl Clone for Arguments {
    fn clone(&self) -> (r: Self)
        ensures
            r.deep_view() == self.deep_view(),
    {
        match self {
            Arguments::Object(value) => {
                let new_value = value.clone();
                assert(new_value.deep_view() =~= value.deep_view());
                Arguments::Object(new_value)
            },
            Arguments::Other(value) => Arguments::Other(value.clone()),
        }
    }
}

/// The value of the first member with that key.
pub open spec fn member_value(members: Seq<MemberView>, key: Seq<char>) -> Option<
    ArgumentValueView,
>
    decreases members.len(),
{
    if members.len() == 0 {
        None
    } else if members[0].key == key {
        Some(members[0].value)
    } else {
        member_value(members.drop_first(), key)
    }
}

/// The members with the value of the first one of that key replaced.
pub open spec fn with_member(
    members: Seq<MemberView>,
    key: Seq<char>,
    value: ArgumentValueView,
) -> Seq<MemberView>
    decreases members.len(),
{
    if members.len() == 0 {
        members
    } else if members[0].key == key {
        members.update(0, MemberView { key, value })
    } else {
        seq![members[0]] + with_member(members.drop_first(), key, value)
    }
}

/// The JSON text of a value.
pub open spec fn value_text(value: ArgumentValueView) -> Seq<char> {
    match value {
        ArgumentValueView::Text(content) => json_quoted(content),
        ArgumentValueView::Flag(flag) => text::flag_text(flag),
        ArgumentValueView::Count(n) => text::digits(n as nat),
        ArgumentValueView::Other(json) => json,
    }
}

/// The JSON text of a member.
pub open spec fn member_text(member: MemberView) -> Seq<char> {
    json_quoted(member.key) + ":"@ + value_text(member.value)
}

impl ArgumentsView {
    /// The value of the member with that key.
    pub open spec fn value(self, key: Seq<char>) -> Option<ArgumentValueView> {
        match self {
            ArgumentsView::Object(members) => member_value(members, key),
            ArgumentsView::Other(_) => None,
        }
    }

    /// The text of the member with that key.
    pub open spec fn text(self, key: Seq<char>) -> Option<Seq<char>> {
        match self.value(key) {
            Some(ArgumentValueView::Text(content)) => Some(content),
            _ => None,
        }
    }

    /// The boolean of the member with that key.
    pub open spec fn flag(self, key: Seq<char>) -> Option<bool> {
        match self.value(key) {
            Some(ArgumentValueView::Flag(flag)) => Some(flag),
            _ => None,
        }
    }

    /// The number of the member with that key.
    pub open spec fn count(self, key: Seq<char>) -> Option<u64> {
        match self.value(key) {
            Some(ArgumentValueView::Count(n)) => Some(n),
            _ => None,
        }
    }

    /// The arguments with the text of one member replaced.
    pub open spec fn with_text(self, key: Seq<char>, content: Seq<char>) -> ArgumentsView {
        match self {
            ArgumentsView::Object(members) => ArgumentsView::Object(
                with_member(members, key, ArgumentValueView::Text(content)),
            ),
            ArgumentsView::Other(_) => self,
        }
    }

    /// The JSON text of the arguments, without white space between its parts.
    pub open spec fn json(self) -> Seq<char> {
        match self {
            ArgumentsView::Object(members) => "{"@ + text::joined(
                members.map_values(|m: MemberView| member_text(m)),
                ","@,
            ) + "}"@,
            ArgumentsView::Other(json) => json,
        }
    }
}

/// A replaced member is read back, and every other member is as before.
pub proof fn law_replaced_member(
    members: Seq<MemberView>,
    key: Seq<char>,
    value: ArgumentValueView,
    other: Seq<char>,
)
    ensures
        member_value(members, key) is Some ==> member_value(with_member(members, key, value), key)
            == Some(value),
        other != key ==> member_value(with_member(members, key, value), other) == member_value(
            members,
            other,
        ),
        with_member(members, key, value).len() == members.len(),
    decreases members.len(),
{
    if members.len() > 0 {
        let changed = with_member(members, key, value);
        if members[0].key == key {
            assert(changed.drop_first() =~= members.drop_first());
        } else {
            law_replaced_member(members.drop_first(), key, value, other);
            assert(changed.drop_first() =~= with_member(members.drop_first(), key, value));
        }
    }
}

/// The position of the first member with that key.
fn find_member(members: &Vec<Member>, key: &str) -> (r: Option<usize>)
    ensures
        match r {
            Some(i) => {
                &&& i < members@.len()
                &&& members@[i as int].key@ == key@
                &&& forall|j: int| 0 <= j < i ==> members.deep_view()[j].key != key@
            },
            None => forall|j: int|
                0 <= j < members@.len() ==> members.deep_view()[j].key != key@,
        },
{
    let mut i: usize = 0;
    while i < members.len()
        invariant
            i <= members@.len(),
            forall|j: int| 0 <= j < i ==> members.deep_view()[j].key != key@,
        decreases members@.len() - i,
    {
        if text::same(members[i].key.as_str(), key) {
            return Some(i);
        }
        i = i + 1;
    }
    None
}

proof fn lemma_first_member(
    members: Seq<MemberView>,
    key: Seq<char>,
    value: ArgumentValueView,
    i: int,
)
    requires
        0 <= i <= members.len(),
        forall|j: int| 0 <= j < i ==> members[j].key != key,
        i < members.len() ==> members[i].key == key,
    ensures
        i < members.len() ==> member_value(members, key) == Some(members[i].value),
        i == members.len() ==> member_value(members, key) is None,
        i < members.len() ==> with_member(members, key, value) == members.update(
            i,
            MemberView { key, value },
        ),
        i == members.len() ==> with_member(members, key, value) == members,
    decreases members.len(),
{
    if members.len() > 0 && members[0].key != key {
        let rest = members.drop_first();
        assert forall|j: int| 0 <= j < i - 1 implies rest[j].key != key by {
            assert(rest[j] == members[j + 1]);
        }
        lemma_first_member(rest, key, value, i - 1);
        if i < members.len() {
            assert(rest[i - 1] == members[i]);
            assert(seq![members[0]] + rest.update(i - 1, MemberView { key, value })
                =~= members.update(i, MemberView { key, value }));
        } else {
            assert(seq![members[0]] + rest =~= members);
        }
    }
}

impl Arguments {
    /// The value of the member with that key.
    fn value(&self, key: &str) -> (r: Option<&ArgumentValue>)
        ensures
            r.deep_view() == self.deep_view().value(key@),
    {
        match self {
            Arguments::Object(members) => {
                let found = find_member(members, key);
                proof {
                    let at = match found {
                        Some(i) => i as int,
                        None => members@.len() as int,
                    };
                    lemma_first_member(
                        members.deep_view(),
                        key@,
                        ArgumentValueView::Flag(true),
                        at,
                    );
                }
                match found {
                    Some(i) => Some(&members[i].value),
                    None => None,
                }
            },
            Arguments::Other(_) => None,
        }
    }

    /// The text of the member with that key.
    pub fn text(&self, key: &str) -> (r: Option<String>)
        ensures
            r.deep_view() == self.deep_view().text(key@),
    {
        match self.value(key) {
            Some(ArgumentValue::Text(content)) => Some(content.clone()),
            _ => None,
        }
    }

    /// The boolean of the member with that key.
    pub fn flag(&self, key: &str) -> (r: Option<bool>)
        ensures
            r == self.deep_view().flag(key@),
    {
        match self.value(key) {
            Some(ArgumentValue::Flag(flag)) => Some(*flag),
            _ => None,
        }
    }

    /// The number of the member with that key.
    pub fn count(&self, key: &str) -> (r: Option<u64>)
        ensures
            r == self.deep_view().count(key@),
    {
        match self.value(key) {
            Some(ArgumentValue::Count(n)) => Some(*n),
            _ => None,
        }
    }

    /// The arguments with the text of one member replaced.
    pub fn with_text(self, key: &str, content: String) -> (r: Arguments)
        ensures
            r.deep_view() == self.deep_view().with_text(key@, content@),
    {
        match self {
            Arguments::Object(members) => {
                let mut members = members;
                let ghost before = members.deep_view();
                let ghost value = ArgumentValueView::Text(content@);
                match find_member(&members, key) {
                    Some(i) => {
                        proof {
                            lemma_first_member(before, key@, value, i as int);
                        }
                        members[i] = Member {
                            key: key.to_owned(),
                            value: ArgumentValue::Text(content),
                        };
                        assert(members.deep_view() =~= before.update(
                            i as int,
                            MemberView { key: key@, value },
                        ));
                    },
                    None => {
                        proof {
                            lemma_first_member(before, key@, value, before.len() as int);
                        }
                    },
                }
                Arguments::Object(members)
            },
            Arguments::Other(json) => Arguments::Other(json),
        }
    }

    /// The JSON text of the arguments.
    pub fn json(&self) -> (r: String)
        ensures
            r@ == self.deep_view().json(),
    {
        match self {
            Arguments::Object(members) => {
                let mut parts: Vec<String> = Vec::new();
                let ghost wanted = members.deep_view().map_values(|m: MemberView| member_text(m));
                let mut i: usize = 0;
                while i < members.len()
                    invariant
                        i <= members@.len(),
                        wanted == members.deep_view().map_values(|m: MemberView| member_text(m)),
                        parts.deep_view() == wanted.take(i as int),
                    decreases members@.len() - i,
                {
                    let mut part = quote(members[i].key.as_str());
                    part.append(":");
                    let value = match &members[i].value {
                        ArgumentValue::Text(content) => quote(content.as_str()),
                        ArgumentValue::Flag(flag) => {
                            if *flag {
                                "true".to_owned()
                            } else {
                                "false".to_owned()
                            }
                        },
                        ArgumentValue::Count(n) => text::decimal(*n),
                        ArgumentValue::Other(json) => json.clone(),
                    };
                    part.append(value.as_str());
                    assert(part@ == wanted[i as int]);
                    let ghost before = parts.deep_view();
                    parts.push(part);
                    assert(parts.deep_view() =~= before.push(part@));
                    assert(wanted.take(i + 1) =~= wanted.take(i as int).push(wanted[i as int]));
                    i = i + 1;
                }
                assert(wanted.take(i as int) =~= wanted);
                let mut r = "{".to_owned();
                let body = text::join(&parts, ",");
                r.append(body.as_str());
                r.append("}");
                r
            },
            Arguments::Other(json) => json.clone(),
        }
    }
}

} // verus!
