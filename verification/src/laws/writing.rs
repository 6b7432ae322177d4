//! What is written for others to read: JSON, messages and errors.

use vstd::prelude::*;

use crate::arguments::{
    json_char, json_chars, json_quoted, member_text, ArgumentValueView, ArgumentsView, MemberView,
};
use crate::channel::MailboxMessageView;
use crate::error::{failure_text, CoreErrorView, FailedTask};
use crate::filesystem::{io_error, read_error, remove_error, FsErrorView, IoErrorKind};
use crate::laws::parts::{
    begins_with, ends_with, lemma_is_between, lemma_part_of_joined, lemma_part_of_part, part_of,
};
use crate::session::{state_text, uuid_text, SessionState};
use crate::text;
use crate::wait::message_json;

verus! {

broadcast use vstd::seq::group_seq_axioms;

proof fn lemma_char_is_known(c: char, d: char, rest: Seq<char>, others: Seq<char>)
    requires
        json_char(c) + rest == json_char(d) + others,
    ensures
        c == d,
        rest == others,
{
    let a = json_char(c) + rest;
    let b = json_char(d) + others;
    assert(a[0] == json_char(c)[0]);
    assert(b[0] == json_char(d)[0]);
    if json_char(c).len() > 1 {
        assert(a[1] == json_char(c)[1]);
    }
    if json_char(d).len() > 1 {
        assert(b[1] == json_char(d)[1]);
    }
    if json_char(c).len() == 6 && json_char(d).len() == 6 {
        assert(a[4] == json_char(c)[4] && a[5] == json_char(c)[5]);
        assert(b[4] == json_char(d)[4] && b[5] == json_char(d)[5]);
        assert(c as int / 16 == d as int / 16);
        assert(c as int % 16 == d as int % 16);
        assert(c as int == d as int);
    }
    assert(c == d);
    assert(rest =~= a.skip(json_char(c).len() as int));
    assert(others =~= b.skip(json_char(d).len() as int));
}

proof fn lemma_chars_from_the_front(content: Seq<char>)
    requires
        content.len() > 0,
    ensures
        json_chars(content) == json_char(content[0]) + json_chars(content.drop_first()),
    decreases content.len(),
{
    let rest = content.drop_first();
    if content.len() == 1 {
        assert(content.drop_last() =~= Seq::empty());
        assert(rest =~= Seq::empty());
        assert(json_chars(content) =~= json_char(content[0]) + json_chars(rest));
    } else {
        let front = content.drop_last();
        lemma_chars_from_the_front(front);
        assert(front.drop_first() =~= rest.drop_last());
        assert(json_chars(content) =~= json_char(content[0]) + json_chars(rest));
    }
}

/// Different texts are written differently.
pub proof fn law_text_can_be_read_back(a: Seq<char>, b: Seq<char>)
    requires
        json_chars(a) == json_chars(b),
    ensures
        a == b,
    decreases a.len(),
{
    if a.len() > 0 {
        lemma_chars_from_the_front(a);
        assert(json_char(a[0]).len() > 0);
        if b.len() > 0 {
            lemma_chars_from_the_front(b);
            lemma_char_is_known(
                a[0],
                b[0],
                json_chars(a.drop_first()),
                json_chars(b.drop_first()),
            );
            law_text_can_be_read_back(a.drop_first(), b.drop_first());
            assert(a =~= seq![a[0]] + a.drop_first());
            assert(b =~= seq![b[0]] + b.drop_first());
        }
    } else if b.len() > 0 {
        lemma_chars_from_the_front(b);
        assert(json_char(b[0]).len() > 0);
    }
}

/// Text without quotes, backslashes and control characters is written as it is.
pub proof fn law_plain_text_stays(content: Seq<char>)
    requires
        forall|i: int|
            0 <= i < content.len() ==> (#[trigger] content[i]) as int >= 32 && content[i] != '"'
                && content[i] != '\\',
    ensures
        json_chars(content) == content,
        json_quoted(content) == seq!['"'] + content + seq!['"'],
    decreases content.len(),
{
    if content.len() > 0 {
        let front = content.drop_last();
        assert forall|i: int| 0 <= i < front.len() implies (#[trigger] front[i]) as int >= 32
            && front[i] != '"' && front[i] != '\\' by {
            assert(front[i] == content[i]);
        }
        law_plain_text_stays(front);
        let last = content[content.len() - 1];
        assert(json_char(last) =~= seq![last]);
        assert(json_chars(content) =~= content);
    } else {
        assert(json_chars(content) =~= content);
    }
}

/// The JSON of arguments holds every member: its key and its value.
pub proof fn law_arguments_are_written_in_full(members: Seq<MemberView>, i: int)
    requires
        0 <= i < members.len(),
    ensures
        ({
            let json = ArgumentsView::Object(members).json();
            let key = json_quoted(members[i].key);
            &&& begins_with(json, "{"@)
            &&& ends_with(json, "}"@)
            &&& members[i].value matches ArgumentValueView::Text(content) ==> part_of(
                key + ":"@ + json_quoted(content),
                json,
            )
            &&& members[i].value matches ArgumentValueView::Flag(flag) ==> part_of(
                key + ":"@ + (if flag {
                    "true"@
                } else {
                    "false"@
                }),
                json,
            )
            &&& members[i].value matches ArgumentValueView::Count(n) ==> part_of(
                key + ":"@ + text::digits(n as nat),
                json,
            )
            &&& members[i].value matches ArgumentValueView::Other(raw) ==> part_of(
                key + ":"@ + raw,
                json,
            )
        }),
{
    let texts = members.map_values(|m: MemberView| member_text(m));
    let list = text::joined(texts, ","@);
    let json = ArgumentsView::Object(members).json();
    reveal_strlit("{");
    reveal_strlit("}");
    assert(json.take(1) =~= "{"@);
    assert(json.skip(json.len() - 1) =~= "}"@);
    assert(texts[i] == member_text(members[i]));
    lemma_part_of_joined(texts, ","@, i);
    lemma_is_between(json, "{"@, list, "}"@);
    lemma_part_of_part(texts[i], list, json);
}

/// A message is handed over with its content and with who sent it.
pub proof fn law_message_says_who_sent_it(message: MailboxMessageView)
    ensures
        part_of(json_quoted("content"@) + ":"@ + json_quoted(message.content), message_json(message)),
        part_of(
            json_quoted("from"@) + ":"@ + json_quoted(uuid_text(message.from.0)),
            message_json(message),
        ),
{
    let members = seq![
        MemberView { key: "content"@, value: ArgumentValueView::Text(message.content) },
        MemberView { key: "from"@, value: ArgumentValueView::Text(uuid_text(message.from.0)) },
    ];
    law_arguments_are_written_in_full(members, 0);
    law_arguments_are_written_in_full(members, 1);
}

/// An error says what happened: what the model or the library said, which call was not known,
/// and which state was met in place of which. Errors of different kinds begin differently.
pub proof fn law_errors_say_what_happened(
    message: Seq<char>,
    expected: SessionState,
    actual: SessionState,
)
    ensures
        ends_with(CoreErrorView::LlmError { message }.text(), message),
        ends_with(CoreErrorView::Internal { message }.text(), message),
        ends_with(CoreErrorView::UnknownToolUseId { tool_use_id: message }.text(), message),
        ends_with(CoreErrorView::InvalidState { expected, actual }.text(), state_text(actual)),
        part_of(state_text(expected), CoreErrorView::InvalidState { expected, actual }.text()),
        begins_with(CoreErrorView::LlmError { message }.text(), "LLM error"@),
        begins_with(CoreErrorView::Internal { message }.text(), "internal error"@),
        begins_with(
            CoreErrorView::UnknownToolUseId { tool_use_id: message }.text(),
            "unknown tool_use_id"@,
        ),
        begins_with(CoreErrorView::InvalidState { expected, actual }.text(), "invalid state"@),
        CoreErrorView::SessionNotFound.text() == "session not found"@,
{
    reveal_strlit("LLM error: ");
    reveal_strlit("LLM error");
    reveal_strlit("internal error: ");
    reveal_strlit("internal error");
    reveal_strlit("unknown tool_use_id: ");
    reveal_strlit("unknown tool_use_id");
    reveal_strlit("invalid state: expected ");
    reveal_strlit("invalid state");
    lemma_said("LLM error: "@, "LLM error"@, message);
    lemma_said("internal error: "@, "internal error"@, message);
    lemma_said("unknown tool_use_id: "@, "unknown tool_use_id"@, message);
    let a = "invalid state: expected "@;
    let rest = state_text(expected) + ", got "@ + state_text(actual);
    lemma_said(a, "invalid state"@, rest);
    let whole = CoreErrorView::InvalidState { expected, actual }.text();
    assert(whole =~= a + rest);
    assert(whole =~= a + state_text(expected) + (", got "@ + state_text(actual)));
    lemma_is_between(whole, a, state_text(expected), ", got "@ + state_text(actual));
    assert(whole.skip(whole.len() - state_text(actual).len()) =~= state_text(actual));
}

proof fn lemma_said(label: Seq<char>, start: Seq<char>, message: Seq<char>)
    requires
        start.len() <= label.len(),
        forall|i: int| 0 <= i < start.len() ==> label[i] == #[trigger] start[i],
    ensures
        begins_with(label + message, start),
        ends_with(label + message, message),
{
    let whole = label + message;
    assert(whole.take(start.len() as int) =~= start);
    assert(whole.skip(whole.len() - message.len()) =~= message);
}

/// What the host could not do is told, and differently for different things.
pub proof fn law_failures_differ(a: FailedTask, b: FailedTask)
    requires
        a != b,
    ensures
        failure_text(a) != failure_text(b),
        begins_with(failure_text(a), "failed to "@),
{
    reveal_strlit("failed to ");
    reveal_strlit("failed to archive transcript: ");
    reveal_strlit("failed to archive old tool results: ");
    reveal_strlit("failed to archive oversized tool result: ");
    reveal_strlit("failed to build prompt memory injection: ");
    reveal_strlit("failed to create session filesystem: ");
    reveal_strlit("failed to restore python group: ");
    assert("failed to archive transcript: "@.len() == 30);
    assert("failed to archive old tool results: "@.len() == 36);
    assert("failed to archive oversized tool result: "@.len() == 41);
    assert("failed to build prompt memory injection: "@.len() == 41);
    assert("failed to create session filesystem: "@.len() == 37);
    assert("failed to restore python group: "@.len() == 32);
    assert("failed to archive oversized tool result: "@[10] == 'a');
    assert("failed to build prompt memory injection: "@[10] == 'b');
    assert(failure_text(a).take(10) =~= "failed to "@);
}

/// An error of the files says what happened and where, and so it is made from what the system
/// said: what is not there and what is not allowed is told by its path, all else by its
/// message.
pub proof fn law_errors_of_files(path: Seq<char>, message: Seq<char>)
    ensures
        (FsErrorView::NotFound { path }).text() == "not found: "@ + path,
        ends_with(FsErrorView::PermissionDenied { path }.text(), path),
        ends_with(FsErrorView::PathTraversal { path }.text(), path),
        ends_with(FsErrorView::Io { message }.text(), message),
        ends_with(FsErrorView::WrongEntryType { path, message }.text(), message),
        part_of(path, FsErrorView::WrongEntryType { path, message }.text()),
        read_error(path, IoErrorKind::NotFound, message) == (FsErrorView::NotFound { path }),
        read_error(path, IoErrorKind::PermissionDenied, message) == (
        FsErrorView::PermissionDenied { path }),
        read_error(path, IoErrorKind::Other, message) == (FsErrorView::Io { message }),
        io_error(IoErrorKind::NotFound, message) is NotFound,
        io_error(IoErrorKind::PermissionDenied, message) is PermissionDenied,
        io_error(IoErrorKind::Other, message) == (FsErrorView::Io { message }),
{
    let none = Seq::<char>::empty();
    lemma_said("permission denied: "@, none, path);
    lemma_said("path traversal denied: "@, none, path);
    lemma_said("I/O error: "@, none, message);
    let a = "wrong entry type at "@;
    let whole = a + path + ": "@ + message;
    assert(whole =~= a + path + (": "@ + message));
    lemma_is_between(whole, a, path, ": "@ + message);
    assert(whole.skip(whole.len() - message.len()) =~= message);
}

/// An entry that is not there cannot be removed; what else goes wrong is told by its message.
pub proof fn law_errors_of_removing(path: Seq<char>, kind: IoErrorKind, message: Seq<char>)
    ensures
        kind == IoErrorKind::NotFound ==> remove_error(path, kind, message) == (
        FsErrorView::NotFound { path }),
        kind != IoErrorKind::NotFound ==> remove_error(path, kind, message) == (FsErrorView::Io {
            message,
        }),
{
}

} // verus!
