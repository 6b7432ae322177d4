//! What a prompt is for: the model is told what it can use and what it was asked to heed.

use vstd::prelude::*;

use crate::context::{new_session, SessionInitView, SessionMemoryView, ToolBeltView};
use crate::laws::parts::{
    begins_with, ends_with, lemma_is_between, lemma_part_of_joined, lemma_part_of_part, part_of,
};
use crate::laws::texts::{blank, lemma_trim_end, unbroken};
use crate::memory::{memory_section, record_line, record_lines, MemoryRecordView};
use crate::message::{
    MessageContentView, MessageView, ToolDefinitionView, ToolUseRequestView,
};
use crate::prompt::{
    cache_usage, listing_summary, memory_mode, prompt_parts, skill_parts, system_prompt,
    tool_line, tool_section, ProjectInstructionsView, PromptMemoryMode, SkillPromptView,
    DEFAULT_SYSTEM_PROMPT, PLAN_MODE_SYSTEM_PROMPT,
};
use crate::session::SessionId;
use crate::text;

verus! {

broadcast use vstd::seq::group_seq_axioms;

pub proof fn lemma_joined_ends(parts: Seq<Seq<char>>, separator: Seq<char>)
    requires
        parts.len() > 0,
    ensures
        begins_with(text::joined(parts, separator), parts[0]),
        ends_with(text::joined(parts, separator), parts.last()),
    decreases parts.len(),
{
    let whole = text::joined(parts, separator);
    if parts.len() == 1 {
        assert(whole.take(whole.len() as int) =~= whole);
        assert(whole.skip(0) =~= whole);
    } else {
        let front = parts.drop_last();
        lemma_joined_ends(front, separator);
        let before = text::joined(front, separator);
        assert(whole.take(parts[0].len() as int) =~= before.take(parts[0].len() as int));
        assert(whole.skip(whole.len() - parts.last().len()) =~= parts.last());
    }
}

/// How a tool is described: with its name and its description, and as one that only reads or
/// that may be repeated where it is.
pub proof fn law_tool_is_described(tool: ToolDefinitionView)
    ensures
        begins_with(tool_line(tool), "- `"@ + tool.name),
        ends_with(tool_line(tool), tool.description),
        tool.read_only ==> part_of("read-only"@, tool_line(tool)),
        tool.idempotent ==> part_of("idempotent"@, tool_line(tool)),
        !tool.read_only && !tool.idempotent ==> tool_line(tool) == "- `"@ + tool.name + "`: "@
            + tool.description,
        tool_line(tool) != tool_line(ToolDefinitionView { read_only: !tool.read_only, ..tool }),
        tool_line(tool) != tool_line(ToolDefinitionView { idempotent: !tool.idempotent, ..tool }),
{
    let line = tool_line(tool);
    let start = "- `"@ + tool.name;
    assert(line.take(start.len() as int) =~= start);
    assert(line.skip(line.len() - tool.description.len()) =~= tool.description);
    reveal_strlit(" (read-only, idempotent)");
    reveal_strlit(" (read-only)");
    reveal_strlit(" (idempotent)");
    reveal_strlit("read-only");
    reveal_strlit("idempotent");
    reveal_strlit("`: ");
    reveal_strlit("`");
    reveal_strlit(": ");
    assert(" (read-only, idempotent)"@.len() == 24);
    assert(" (read-only)"@.len() == 12);
    assert(" (idempotent)"@.len() == 13);
    let words = crate::prompt::qualifiers(tool);
    let front = start + "`"@;
    let back = ": "@ + tool.description;
    assert(line =~= front + words + back);
    lemma_is_between(line, front, words, back);
    if tool.read_only {
        assert(words.subrange(2, 11) =~= "read-only"@);
        assert(crate::laws::parts::stands_at("read-only"@, words, 2));
        lemma_part_of_part("read-only"@, words, line);
    }
    if tool.idempotent {
        if tool.read_only {
            assert(words.subrange(13, 23) =~= "idempotent"@);
            assert(crate::laws::parts::stands_at("idempotent"@, words, 13));
        } else {
            assert(words.subrange(2, 12) =~= "idempotent"@);
            assert(crate::laws::parts::stands_at("idempotent"@, words, 2));
        }
        lemma_part_of_part("idempotent"@, words, line);
    }
    if !tool.read_only && !tool.idempotent {
        assert("`: "@ =~= "`"@ + ": "@);
        assert(line =~= "- `"@ + tool.name + "`: "@ + tool.description);
    }
}

proof fn lemma_skill_part(skills: Seq<SkillPromptView>, i: int)
    requires
        0 <= i < skills.len(),
        skills[i].system_prompt is Some,
    ensures
        skill_parts(skills).contains(
            "\n## Skill: "@ + skills[i].name + "\n"@ + skills[i].system_prompt->0,
        ),
    decreases skills.len(),
{
    let part = "\n## Skill: "@ + skills[i].name + "\n"@ + skills[i].system_prompt->0;
    let all = skill_parts(skills);
    if i == skills.len() - 1 {
        assert(all[all.len() - 1] == part);
    } else {
        let front = skills.drop_last();
        lemma_skill_part(front, i);
        assert(front[i] == skills[i]);
        let before = skill_parts(front);
        let k = choose|k: int| 0 <= k < before.len() && before[k] == part;
        assert(all[k] == before[k]);
    }
}

proof fn lemma_tool_in_section(tools: Seq<ToolDefinitionView>, i: int)
    requires
        0 <= i < tools.len(),
    ensures
        part_of(tool_line(tools[i]), tool_section(tools)),
{
    let lines = seq!["## Available Tools"@, Seq::empty()] + tools.map_values(
        |t: ToolDefinitionView| tool_line(t),
    );
    assert(lines[i + 2] == tool_line(tools[i]));
    lemma_part_of_joined(lines, "\n"@, i + 2);
}

/// What stands in a prompt: which kind of work it is, every tool as it is described, the
/// instructions of the project with their file, what was asked for beside, and what every
/// skill adds; at the end what is remembered.
pub proof fn law_prompt_leaves_nothing_out(
    plan_mode: bool,
    tools: Seq<ToolDefinitionView>,
    instructions: Option<ProjectInstructionsView>,
    base: Option<Seq<char>>,
    skills: Seq<SkillPromptView>,
    suffix: Option<Seq<char>>,
    i: int,
)
    ensures
        ({
            let prompt = system_prompt(plan_mode, tools, instructions, base, skills, suffix);
            &&& plan_mode ==> begins_with(prompt, PLAN_MODE_SYSTEM_PROMPT@)
            &&& !plan_mode ==> begins_with(prompt, DEFAULT_SYSTEM_PROMPT@)
            &&& part_of(DEFAULT_SYSTEM_PROMPT@, prompt)
            &&& 0 <= i < tools.len() ==> part_of(tool_line(tools[i]), prompt)
            &&& instructions matches Some(found) ==> part_of(found.content, prompt) && part_of(
                found.file_name,
                prompt,
            )
            &&& base matches Some(asked) ==> part_of(asked, prompt)
            &&& 0 <= i < skills.len() ==> (skills[i].system_prompt matches Some(added) ==> part_of(
                added,
                prompt,
            ) && part_of(skills[i].name, prompt))
            &&& suffix matches Some(remembered) ==> ends_with(prompt, remembered)
        }),
{
    let prompt = system_prompt(plan_mode, tools, instructions, base, skills, suffix);
    let parts = prompt_parts(plan_mode, tools, instructions, base, skills, suffix);
    let none = Seq::<char>::empty();
    lemma_joined_ends(parts, "\n\n"@);
    let d: int = if plan_mode {
        1
    } else {
        0
    };
    assert(parts[d] == DEFAULT_SYSTEM_PROMPT@);
    lemma_part_of_joined(parts, "\n\n"@, d);
    assert(parts[d + 1] == tool_section(tools));
    lemma_part_of_joined(parts, "\n\n"@, d + 1);
    if 0 <= i < tools.len() {
        lemma_tool_in_section(tools, i);
        lemma_part_of_part(tool_line(tools[i]), tool_section(tools), prompt);
    }
    let p: int = d + 2;
    let b: int = if instructions is Some {
        p + 1
    } else {
        p
    };
    let s: int = if base is Some {
        b + 1
    } else {
        b
    };
    if let Some(found) = instructions {
        let a = "# Project Instructions (from "@;
        let part = a + found.file_name + ")\n\n"@ + found.content;
        assert(parts[p] == part);
        lemma_part_of_joined(parts, "\n\n"@, p);
        assert(part =~= a + found.file_name + (")\n\n"@ + found.content));
        lemma_is_between(part, a, found.file_name, ")\n\n"@ + found.content);
        assert(part =~= (a + found.file_name + ")\n\n"@) + found.content + none);
        lemma_is_between(part, a + found.file_name + ")\n\n"@, found.content, none);
        lemma_part_of_part(found.file_name, part, prompt);
        lemma_part_of_part(found.content, part, prompt);
    }
    if let Some(asked) = base {
        assert(parts[b] == asked);
        lemma_part_of_joined(parts, "\n\n"@, b);
    }
    if 0 <= i < skills.len() {
        if let Some(added) = skills[i].system_prompt {
            lemma_skill_part(skills, i);
            let a = "\n## Skill: "@;
            let name = skills[i].name;
            let part = a + name + "\n"@ + added;
            let k = choose|k: int|
                0 <= k < skill_parts(skills).len() && skill_parts(skills)[k] == part;
            assert(parts[s + k] == part);
            lemma_part_of_joined(parts, "\n\n"@, s + k);
            assert(part =~= a + name + ("\n"@ + added));
            lemma_is_between(part, a, name, "\n"@ + added);
            assert(part =~= (a + name + "\n"@) + added + none);
            lemma_is_between(part, a + name + "\n"@, added, none);
            lemma_part_of_part(name, part, prompt);
            lemma_part_of_part(added, part, prompt);
        }
    }
    if let Some(remembered) = suffix {
        assert(parts.last() == remembered);
    }
}

/// A session is told of every tool that it can use, of the instructions of its project, of
/// what it was asked to heed, and of what its skills say.
pub proof fn law_session_is_told_what_it_needs(
    id: SessionId,
    init: SessionInitView,
    belt: ToolBeltView,
    instructions: Option<ProjectInstructionsView>,
    memory: SessionMemoryView,
    created_at: Seq<char>,
    i: int,
)
    ensures
        ({
            let session = new_session(id, init, belt, instructions, memory, created_at);
            &&& session.system_prompt matches Some(prompt)
            &&& init.plan_mode ==> begins_with(prompt, PLAN_MODE_SYSTEM_PROMPT@)
            &&& !init.plan_mode ==> begins_with(prompt, DEFAULT_SYSTEM_PROMPT@)
            &&& 0 <= i < session.tools.len() ==> part_of(tool_line(session.tools[i]), prompt)
            &&& instructions matches Some(found) ==> part_of(found.content, prompt)
            &&& init.system_prompt matches Some(asked) ==> part_of(asked, prompt)
            &&& 0 <= i < init.skills.len() ==> (
            init.skills[i].prompt.system_prompt matches Some(added) ==> part_of(added, prompt))
        }),
{
    let session = new_session(id, init, belt, instructions, memory, created_at);
    let skills = crate::context::skill_prompts(init.skills);
    law_prompt_leaves_nothing_out(
        init.plan_mode,
        session.tools,
        instructions,
        init.system_prompt,
        skills,
        None,
        i,
    );
    if 0 <= i < init.skills.len() {
        assert(skills[i] == init.skills[i].prompt);
    }
}

proof fn lemma_trim_keeps(s: Seq<char>, n: int)
    requires
        0 < n <= s.len(),
        !text::is_space(s[n - 1]),
    ensures
        begins_with(text::trim_end(s), s.take(n)),
{
    lemma_trim_end(s);
    let m = text::trim_end(s).len() as int;
    if m < n {
        assert(s.skip(m)[n - 1 - m] == s[n - 1]);
    }
    assert(text::trim_end(s).take(n) =~= s.take(n));
}

proof fn lemma_record_is_listed(records: Seq<MemoryRecordView>, i: int)
    requires
        0 <= i < records.len(),
    ensures
        exists|front: Seq<char>, back: Seq<char>|
            record_lines(records) == #[trigger] (front + record_line(records[i]) + back),
    decreases records.len(),
{
    let before = record_lines(records.drop_last());
    let none = Seq::<char>::empty();
    if i == records.len() - 1 {
        assert(record_lines(records) =~= before + record_line(records[i]) + none);
    } else {
        lemma_record_is_listed(records.drop_last(), i);
        assert(records.drop_last()[i] == records[i]);
        let (front, back) = choose|front: Seq<char>, back: Seq<char>|
            before == #[trigger] (front + record_line(records[i]) + back);
        let more = back + record_line(records.last());
        assert(record_lines(records) =~= front + record_line(records[i]) + more);
    }
}

proof fn lemma_kept_in_section(
    whole: Seq<char>,
    front: Seq<char>,
    kept: Seq<char>,
    stop: Seq<char>,
    back: Seq<char>,
)
    requires
        whole == front + (kept + stop + back),
        (kept + stop).len() > 0,
        !text::is_space((kept + stop).last()),
    ensures
        part_of(kept, text::trim_end(whole)),
{
    let start = front + (kept + stop);
    let n = start.len() as int;
    assert(whole[n - 1] == (kept + stop).last());
    lemma_trim_keeps(whole, n);
    assert(whole.take(n) =~= start);
    let rest = text::trim_end(whole).skip(n);
    assert(text::trim_end(whole) =~= front + kept + (stop + rest)) by {
        assert(text::trim_end(whole) =~= text::trim_end(whole).take(n) + rest);
    }
    lemma_is_between(text::trim_end(whole), front, kept, stop + rest);
}

proof fn lemma_title_is_kept(
    whole: Seq<char>,
    front: Seq<char>,
    record: MemoryRecordView,
    back: Seq<char>,
)
    requires
        whole == front + record_line(record) + back,
    ensures
        part_of(record.title, text::trim_end(whole)),
{
    let start = front + "- "@;
    let line = record_line(record);
    let n = "- "@.len() + record.title.len() + 1;
    let after = line.skip(n as int) + back;
    reveal_strlit(": ");
    reveal_strlit(":");
    assert(line.take(n as int) =~= "- "@ + record.title + ":"@);
    assert(line =~= line.take(n as int) + line.skip(n as int));
    assert(whole =~= start + (record.title + ":"@ + after));
    lemma_kept_in_section(whole, start, record.title, ":"@, after);
}

proof fn lemma_body_is_kept(
    whole: Seq<char>,
    front: Seq<char>,
    record: MemoryRecordView,
    back: Seq<char>,
)
    requires
        whole == front + record_line(record) + back,
    ensures
        part_of(text::trimmed(record.body), text::trim_end(whole)),
{
    let body = text::trimmed(record.body);
    let section = text::trim_end(whole);
    let none = Seq::<char>::empty();
    crate::laws::texts::law_trimming_takes_white_space(record.body);
    if body.len() > 0 {
        let start = "- "@ + record.title + ": "@;
        let line = record_line(record);
        let n = (start.len() + body.len()) as int;
        let after = line.skip(n) + back;
        assert(line.take(n) =~= start + body);
        assert(line =~= line.take(n) + line.skip(n));
        assert(whole =~= (front + start) + (body + none + after));
        assert(body + none =~= body);
        lemma_kept_in_section(whole, front + start, body, none, after);
    } else {
        assert(section.subrange(0, 0) =~= body);
        assert(crate::laws::parts::stands_at(body, section, 0));
    }
}

proof fn lemma_tags_are_kept(
    whole: Seq<char>,
    front: Seq<char>,
    record: MemoryRecordView,
    back: Seq<char>,
)
    requires
        whole == front + record_line(record) + back,
        record.tags.len() > 0,
    ensures
        part_of(text::joined(record.tags, ", "@), text::trim_end(whole)),
{
    let list = text::joined(record.tags, ", "@);
    let start = "- "@ + record.title + ": "@ + text::trimmed(record.body) + " [tags: "@;
    let after = "\n"@ + back;
    reveal_strlit("]");
    assert(record_line(record) =~= start + (list + "]"@ + "\n"@));
    assert(whole =~= (front + start) + (list + "]"@ + after));
    lemma_kept_in_section(whole, front + start, list, "]"@, after);
}

/// What is remembered stands in the prompt: of every record its title, its text and its tags.
/// Where nothing is remembered nothing is added.
pub proof fn law_what_is_remembered_is_told(records: Seq<MemoryRecordView>, i: int, k: int)
    ensures
        records.len() == 0 ==> memory_section(records) is None,
        0 <= i < records.len() ==> {
            &&& memory_section(records) matches Some(section)
            &&& begins_with(section, "## Memory"@)
            &&& part_of(records[i].title, section)
            &&& part_of(text::trimmed(records[i].body), section)
            &&& 0 <= k < records[i].tags.len() ==> part_of(records[i].tags[k], section)
        },
{
    if 0 <= i < records.len() {
        let record = records[i];
        let whole = "## Memory\n"@ + record_lines(records);
        let section = text::trim_end(whole);
        assert(begins_with(section, "## Memory"@)) by {
            reveal_strlit("## Memory\n");
            reveal_strlit("## Memory");
            lemma_trim_keeps(whole, 9);
            assert(whole.take(9) =~= "## Memory"@);
        }
        lemma_record_is_listed(records, i);
        let (front, back) = choose|front: Seq<char>, back: Seq<char>|
            record_lines(records) == #[trigger] (front + record_line(record) + back);
        let start = "## Memory\n"@ + front;
        assert(whole =~= start + record_line(record) + back);
        lemma_title_is_kept(whole, start, record, back);
        lemma_body_is_kept(whole, start, record, back);
        if 0 <= k < record.tags.len() {
            lemma_tags_are_kept(whole, start, record, back);
            lemma_part_of_joined(record.tags, ", "@, k);
            lemma_part_of_part(record.tags[k], text::joined(record.tags, ", "@), section);
        }
    }
}

/// The one-line summary of a session has single spaces between its words and is no longer than
/// fits; a summary of few words that are in no quotation marks is those words. A blank one is
/// none.
pub proof fn law_listing_summary(summary: Seq<char>, words: Seq<Seq<char>>)
    ensures
        listing_summary(summary) matches Some(line) ==> 0 < line.len() <= 200,
        blank(summary) ==> listing_summary(summary) is None,
        words.len() > 0 && (forall|i: int|
            0 <= i < words.len() ==> (#[trigger] words[i]).len() > 0 && unbroken(words[i]))
            && summary == text::joined(words, " "@) && summary.len() <= 200 && !(summary[0] == '"'
            || summary[0] == '\'') && !(summary.last() == '"' || summary.last() == '\'')
            ==> listing_summary(summary) == Some(summary),
{
    crate::laws::texts::law_trimming_takes_white_space(summary);
    if blank(summary) {
        assert(text::trimmed(summary) =~= Seq::empty());
        assert(text::word_list(Seq::empty()) =~= Seq::empty());
    }
    if words.len() > 0 && (forall|i: int|
        0 <= i < words.len() ==> (#[trigger] words[i]).len() > 0 && unbroken(words[i])) && summary
        == text::joined(words, " "@) && summary.len() <= 200 && !(summary[0] == '"' || summary[0]
        == '\'') && !(summary.last() == '"' || summary.last() == '\'') {
        lemma_joined_ends(words, " "@);
        assert(summary[0] == summary.take(words[0].len() as int)[0]);
        assert(summary[0] == words[0][0]);
        let last = words[words.len() - 1];
        assert(summary.last() == summary.skip(summary.len() - last.len()).last());
        assert(summary.last() == last[last.len() - 1]);
        assert(text::trimmed(summary) == summary);
        crate::laws::texts::law_words_come_back(words);
    }
}

/// Settings stand for a mode whatever the case of their letters; without one, or with any
/// other, the memory stays out of the prompt.
pub proof fn law_memory_setting(setting: Seq<char>)
    ensures
        memory_mode(None) == PromptMemoryMode::Disabled,
        memory_mode(Some(setting)) == PromptMemoryMode::IndexOnly <==> text::lowered(setting)
            == "index_only"@ || text::lowered(setting) == "index"@,
        memory_mode(Some(setting)) == PromptMemoryMode::TargetedRecall <==> text::lowered(setting)
            == "targeted_recall"@ || text::lowered(setting) == "targeted"@ || text::lowered(setting)
            == "recall"@,
        memory_mode(Some(text::lowered(setting))) == memory_mode(Some(setting)),
{
    reveal_strlit("index_only");
    reveal_strlit("index");
    reveal_strlit("targeted_recall");
    reveal_strlit("targeted");
    reveal_strlit("recall");
    assert("index_only"@[0] == 'i' && "index"@[0] == 'i');
    assert("targeted_recall"@[0] == 't' && "targeted"@[0] == 't' && "recall"@[0] == 'r');
    let low = text::lowered(setting);
    assert(text::lowered(low) =~= low) by {
        assert forall|i: int| 0 <= i < setting.len() implies text::lower_char(#[trigger] low[i])
            == low[i] by {
            let c = setting[i];
            assert(low[i] == text::lower_char(c));
        }
    }
}

/// Of a prompt that begins with the one before it, all of that one is found again. Without one
/// before it nothing is. What is found and what is not make up the prompt.
pub proof fn law_what_is_found_again(
    before: Seq<Seq<char>>,
    more: Seq<Seq<char>>,
    current: Seq<Seq<char>>,
)
    ensures
        cache_usage(None, current) == (0nat, current.len()),
        cache_usage(Some(before), before + more) == (before.len(), more.len()),
        ({
            let (hit, miss) = cache_usage(Some(before), current);
            &&& hit + miss == current.len()
            &&& hit <= before.len()
            &&& before.take(hit as int) == current.take(hit as int)
            &&& hit < before.len() && hit < current.len() ==> before[hit as int]
                != current[hit as int]
        }),
{
    crate::prompt::law_shared_prefix(before, current);
    let both = before + more;
    crate::prompt::law_shared_prefix(before, both);
    let n = crate::prompt::shared_prefix(before, both) as int;
    if n < before.len() {
        assert(before[n] == both[n]);
    }
}

/// Quotation marks around a summary do not belong to it.
pub proof fn law_quotation_marks_go(words: Seq<Seq<char>>)
    requires
        words.len() > 0,
        forall|i: int|
            0 <= i < words.len() ==> (#[trigger] words[i]).len() > 0 && unbroken(words[i]),
        text::joined(words, " "@).len() <= 200,
        text::joined(words, " "@)[0] != '"' && text::joined(words, " "@)[0] != '\'',
        text::joined(words, " "@).last() != '"' && text::joined(words, " "@).last() != '\'',
    ensures
        listing_summary(seq!['"'] + text::joined(words, " "@) + seq!['"']) == Some(
            text::joined(words, " "@),
        ),
        listing_summary(seq!['\''] + text::joined(words, " "@) + seq!['\'']) == Some(
            text::joined(words, " "@),
        ),
{
    let line = text::joined(words, " "@);
    lemma_joined_ends(words, " "@);
    assert(line.len() > 0) by {
        assert(line.take(words[0].len() as int) == words[0]);
    }
    crate::laws::texts::law_words_come_back(words);
    lemma_unquoted('"', line);
    lemma_unquoted('\'', line);
}

proof fn lemma_unquoted(mark: char, line: Seq<char>)
    requires
        mark == '"' || mark == '\'',
        line.len() > 0,
        line[0] != '"' && line[0] != '\'',
        line.last() != '"' && line.last() != '\'',
    ensures
        crate::prompt::unquote_end(
            crate::prompt::unquote_start(text::trimmed(seq![mark] + line + seq![mark])),
        ) == line,
{
    let quoted = seq![mark] + line + seq![mark];
    assert(!text::is_space(mark));
    assert(text::trim_start(quoted) == quoted);
    assert(text::trim_end(quoted) == quoted);
    assert(quoted.drop_first() =~= line + seq![mark]);
    let half = line + seq![mark];
    assert(half[0] == line[0]);
    reveal_with_fuel(crate::prompt::unquote_start, 2);
    assert(crate::prompt::unquote_start(quoted) == half);
    assert(half.drop_last() =~= line);
    assert(half.last() == mark);
    reveal_with_fuel(crate::prompt::unquote_end, 2);
}

/// The tokens of a prompt tell what stands in it: who speaks, every word whatever its case,
/// which call is meant and whether it failed, and every call with its arguments.
pub proof fn law_tokens_tell_the_message(message: MessageView, word: Seq<char>, k: int)
    ensures
        ({
            let tokens = crate::prompt::history_tokens(seq![message]);
            &&& tokens.len() > 0
            &&& tokens[0] == "role:"@ + crate::message::role_text(message.role)
            &&& message.content matches MessageContentView::Text(content) ==> tokens.skip(1)
                == crate::prompt::text_tokens(content)
            &&& message.content matches MessageContentView::ToolResult {
                tool_use_id,
                output,
                is_error,
            } ==> tokens.len() >= 3 && tokens[1] == "tool_use_id:"@ + tool_use_id && tokens[2]
                == "tool_error:"@ + (if is_error {
                "true"@
            } else {
                "false"@
            }) && tokens.skip(3) == crate::prompt::text_tokens(output)
            &&& message.content matches MessageContentView::ToolUse { tool_calls, .. } ==> (0 <= k
                < tool_calls.len() ==> tokens.contains("tool_call:"@ + tool_calls[k].tool_name)
                && tokens.contains("tool_use_id:"@ + tool_calls[k].tool_use_id))
        }),
        unbroken(word) && word.len() > 0 ==> crate::prompt::text_tokens(word) == seq![
            text::lowered(word),
        ],
{
    let one = seq![message];
    assert(one.drop_last() =~= Seq::empty());
    assert(one.last() == message);
    assert(crate::prompt::history_tokens(Seq::<MessageView>::empty()) =~= Seq::empty());
    let tokens = crate::prompt::history_tokens(one);
    assert(tokens =~= crate::prompt::message_tokens(message));
    match message.content {
        MessageContentView::Text(content) => {
            assert(tokens.skip(1) =~= crate::prompt::text_tokens(content));
        },
        MessageContentView::ToolResult { output, .. } => {
            assert(tokens.skip(3) =~= crate::prompt::text_tokens(output));
        },
        MessageContentView::ToolUse { text: said, tool_calls } => {
            if 0 <= k < tool_calls.len() {
                lemma_call_has_tokens(tool_calls, k);
                let calls = crate::prompt::call_tokens(tool_calls);
                let n = tokens.len() - calls.len();
                assert(tokens.skip(n) =~= calls);
                let a = choose|a: int|
                    0 <= a < calls.len() && calls[a] == "tool_call:"@ + tool_calls[k].tool_name;
                let b = choose|b: int|
                    0 <= b < calls.len() && calls[b] == "tool_use_id:"@ + tool_calls[k].tool_use_id;
                assert(tokens[n + a] == calls[a]);
                assert(tokens[n + b] == calls[b]);
            }
        },
    }
    if unbroken(word) && word.len() > 0 {
        let words = seq![word];
        assert(text::joined(words, " "@) == word);
        crate::laws::texts::law_words_come_back(words);
        assert(crate::prompt::text_tokens(word) =~= seq![text::lowered(word)]);
    }
}

proof fn lemma_call_has_tokens(calls: Seq<ToolUseRequestView>, k: int)
    requires
        0 <= k < calls.len(),
    ensures
        crate::prompt::call_tokens(calls).contains("tool_call:"@ + calls[k].tool_name),
        crate::prompt::call_tokens(calls).contains("tool_use_id:"@ + calls[k].tool_use_id),
    decreases calls.len(),
{
    let front = crate::prompt::call_tokens(calls.drop_last());
    let all = crate::prompt::call_tokens(calls);
    if k == calls.len() - 1 {
        assert(all[front.len() as int] == "tool_call:"@ + calls[k].tool_name);
        assert(all[front.len() as int + 1] == "tool_use_id:"@ + calls[k].tool_use_id);
    } else {
        assert(calls.drop_last()[k] == calls[k]);
        lemma_call_has_tokens(calls.drop_last(), k);
        let a = choose|a: int|
            0 <= a < front.len() && front[a] == "tool_call:"@ + calls[k].tool_name;
        let b = choose|b: int|
            0 <= b < front.len() && front[b] == "tool_use_id:"@ + calls[k].tool_use_id;
        assert(all[a] == front[a]);
        assert(all[b] == front[b]);
    }
}

/// The tokens of a prompt tell which tools there are, and how they may be used.
pub proof fn law_tokens_tell_the_tools(tools: Seq<ToolDefinitionView>, tool: ToolDefinitionView)
    ensures
        ({
            let before = crate::prompt::tool_tokens(tools);
            let after = crate::prompt::tool_tokens(tools.push(tool));
            let n = before.len() as int;
            &&& after.len() >= n + 3
            &&& after.take(n) == before
            &&& after[n] == "tool:"@ + tool.name
            &&& after[n + 1] == "tool_ro:"@ + (if tool.read_only {
                "true"@
            } else {
                "false"@
            })
            &&& after[n + 2] == "tool_idempotent:"@ + (if tool.idempotent {
                "true"@
            } else {
                "false"@
            })
            &&& after.skip(n + 3) == crate::prompt::text_tokens(tool.description)
                + crate::prompt::text_tokens(tool.parameters)
        }),
{
    assert(tools.push(tool).drop_last() =~= tools);
    assert(tools.push(tool).last() == tool);
    let before = crate::prompt::tool_tokens(tools);
    let after = crate::prompt::tool_tokens(tools.push(tool));
    let n = before.len() as int;
    assert(after.take(n) =~= before);
    assert(after.skip(n + 3) =~= crate::prompt::text_tokens(tool.description)
        + crate::prompt::text_tokens(tool.parameters));
}

/// A prompt is put together in order: behind the tools come the instructions of the project,
/// then what was asked for, then the skills in their order, and last what is remembered.
pub proof fn law_prompt_is_in_order(
    plan_mode: bool,
    tools: Seq<ToolDefinitionView>,
    found: ProjectInstructionsView,
    instructions: Option<ProjectInstructionsView>,
    asked: Seq<char>,
    base: Option<Seq<char>>,
    skills: Seq<SkillPromptView>,
    skill: SkillPromptView,
    remembered: Seq<char>,
)
    ensures
        ({
            let none = Seq::<SkillPromptView>::empty();
            let bare = system_prompt(plan_mode, tools, None, None, none, None);
            let informed = system_prompt(plan_mode, tools, instructions, None, none, None);
            let whole = system_prompt(plan_mode, tools, instructions, base, skills, None);
            let more = system_prompt(plan_mode, tools, instructions, base, skills.push(skill), None);
            &&& ends_with(bare, tool_section(tools))
            &&& system_prompt(plan_mode, tools, Some(found), None, none, None) == bare + "\n\n"@ + (
            "# Project Instructions (from "@ + found.file_name + ")\n\n"@ + found.content)
            &&& system_prompt(plan_mode, tools, instructions, Some(asked), none, None) == informed
                + "\n\n"@ + asked
            &&& skill.system_prompt matches Some(added) ==> more == whole + "\n\n"@ + (
            "\n## Skill: "@ + skill.name + "\n"@ + added)
            &&& skill.system_prompt is None ==> more == whole
            &&& system_prompt(plan_mode, tools, instructions, base, skills, Some(remembered))
                == whole + "\n\n"@ + remembered
        }),
{
    let none = Seq::<SkillPromptView>::empty();
    assert(skill_parts(none) =~= Seq::empty());
    let p0 = prompt_parts(plan_mode, tools, None, None, none, None);
    lemma_joined_ends(p0, "\n\n"@);
    assert(p0.last() == tool_section(tools));
    let p1 = prompt_parts(plan_mode, tools, Some(found), None, none, None);
    assert(p1.drop_last() =~= p0);
    let q0 = prompt_parts(plan_mode, tools, instructions, None, none, None);
    let q1 = prompt_parts(plan_mode, tools, instructions, Some(asked), none, None);
    assert(q1.drop_last() =~= q0);
    assert(q1.last() == asked);
    let r0 = prompt_parts(plan_mode, tools, instructions, base, skills, None);
    let r1 = prompt_parts(plan_mode, tools, instructions, base, skills.push(skill), None);
    assert(skills.push(skill).drop_last() =~= skills);
    assert(skills.push(skill).last() == skill);
    if let Some(added) = skill.system_prompt {
        assert(r1.drop_last() =~= r0);
        assert(r1.last() == "\n## Skill: "@ + skill.name + "\n"@ + added);
    } else {
        assert(r1 =~= r0);
    }
    let s1 = prompt_parts(plan_mode, tools, instructions, base, skills, Some(remembered));
    assert(s1.drop_last() =~= r0);
    assert(s1.last() == remembered);
}

/// What is remembered is told in the order of the records.
pub proof fn law_records_are_told_in_order(records: Seq<MemoryRecordView>, record: MemoryRecordView)
    requires
        records.len() > 0,
    ensures
        begins_with(
            memory_section(records.push(record))->0,
            memory_section(records)->0,
        ),
{
    assert(records.push(record).drop_last() =~= records);
    assert(records.push(record).last() == record);
    let whole = "## Memory\n"@ + record_lines(records);
    let longer = "## Memory\n"@ + record_lines(records.push(record));
    assert(longer =~= whole + record_line(record));
    let kept = text::trim_end(whole);
    lemma_trim_end(whole);
    let n = kept.len() as int;
    if n > 0 {
        assert(longer[n - 1] == kept.last());
        lemma_trim_keeps(longer, n);
        assert(longer.take(n) =~= kept);
    } else {
        assert(text::trim_end(longer).take(0) =~= kept);
    }
}

} // verus!
