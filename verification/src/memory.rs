//! What is remembered between sessions, and how the model is told.

use vstd::prelude::*;
use vstd::string::*;

use crate::session::SessionId;
use crate::text;

verus! {

broadcast use vstd::seq::group_seq_axioms;

/// Whom a record is for.
#[derive(Debug)]
pub enum MemoryScope {
    /// The user, everywhere.
    User,
    /// All who work below a directory.
    Project { root: String },
    /// One session.
    Session { session_id: SessionId },
}

/// The model of [`MemoryScope`].
#[verifier::ext_equal]
pub enum MemoryScopeView {
    User,
    Project { root: Seq<char> },
    Session { session_id: SessionId },
}

impl DeepView for MemoryScope {
    type V = MemoryScopeView;

    open spec fn deep_view(&self) -> MemoryScopeView {
        match *self {
            MemoryScope::User => MemoryScopeView::User,
            MemoryScope::Project { root } => MemoryScopeView::Project { root: root.deep_view() },
            MemoryScope::Session { session_id } => MemoryScopeView::Session { session_id },
        }
    }
}

impl Clone for MemoryScope {
    fn clone(&self) -> (r: Self)
        ensures
            r.deep_view() == self.deep_view(),
    {
        match self {
            MemoryScope::User => MemoryScope::User,
            MemoryScope::Project { root } => {
                MemoryScope::Project { root: root.clone() }
            },
            MemoryScope::Session { session_id } => {
                MemoryScope::Session { session_id: *session_id }
            },
        }
    }
}

/// Something that is remembered.
#[derive(Debug)]
pub struct MemoryRecord {
    pub id: String,
    pub scope: MemoryScope,
    pub title: String,
    pub body: String,
    pub tags: Vec<String>,
    /// When it was last changed, as RFC 3339 writes it.
    pub updated_at: String,
}

/// The model of [`MemoryRecord`].
#[verifier::ext_equal]
pub struct MemoryRecordView {
    pub id: Seq<char>,
    pub scope: MemoryScopeView,
    pub title: Seq<char>,
    pub body: Seq<char>,
    pub tags: Seq<Seq<char>>,
    pub updated_at: Seq<char>,
}

impl DeepView for MemoryRecord {
    type V = MemoryRecordView;

    open spec fn deep_view(&self) -> MemoryRecordView {
        MemoryRecordView {
            id: self.id.deep_view(),
            scope: self.scope.deep_view(),
            title: self.title.deep_view(),
            body: self.body.deep_view(),
            tags: self.tags.deep_view(),
            updated_at: self.updated_at.deep_view(),
        }
    }
}

impl Clone for MemoryRecord {
    fn clone(&self) -> (r: Self)
        ensures
            r.deep_view() == self.deep_view(),
    {
        let r = MemoryRecord {
            id: self.id.clone(),
            scope: self.scope.clone(),
            title: self.title.clone(),
            body: self.body.clone(),
            tags: self.tags.clone(),
            updated_at: self.updated_at.clone(),
        };
        assert(r.tags.deep_view() =~= self.tags.deep_view());
        r
    }
}

/// The records of one scope, as they are kept.
#[derive(Debug)]
pub struct MemoryDocument {
    pub schema_version: u32,
    pub records: Vec<MemoryRecord>,
}

/// The model of [`MemoryDocument`].
#[verifier::ext_equal]
pub struct MemoryDocumentView {
    pub schema_version: u32,
    pub records: Seq<MemoryRecordView>,
}

impl DeepView for MemoryDocument {
    type V = MemoryDocumentView;

    open spec fn deep_view(&self) -> MemoryDocumentView {
        MemoryDocumentView {
            schema_version: self.schema_version,
            records: self.records.deep_view(),
        }
    }
}

impl Clone for MemoryDocument {
    fn clone(&self) -> (r: Self)
        ensures
            r.deep_view() == self.deep_view(),
    {
        let r = MemoryDocument {
            schema_version: self.schema_version,
            records: self.records.clone(),
        };
        assert(r.records.deep_view() =~= self.records.deep_view());
        r
    }
}

impl Default for MemoryDocument {
    fn default() -> (r: MemoryDocument)
        ensures
            r.deep_view() == (MemoryDocumentView { schema_version: 0, records: Seq::empty() }),
    {
        let r = MemoryDocument { schema_version: 0, records: Vec::new() };
        assert(r.records.deep_view() =~= Seq::empty());
        r
    }
}

/// The line for a record.
pub open spec fn record_line(record: MemoryRecordView) -> Seq<char> {
    "- "@ + record.title + ": "@ + text::trimmed(record.body) + (if record.tags.len() > 0 {
        " [tags: "@ + text::joined(record.tags, ", "@) + "]"@
    } else {
        Seq::empty()
    }) + "\n"@
}

/// The lines for records.
pub open spec fn record_lines(records: Seq<MemoryRecordView>) -> Seq<char>
    decreases records.len(),
{
    if records.len() == 0 {
        Seq::empty()
    } else {
        record_lines(records.drop_last()) + record_line(records.last())
    }
}

/// The part of a prompt that tells what is remembered.
pub open spec fn memory_section(records: Seq<MemoryRecordView>) -> Option<Seq<char>> {
    if records.len() == 0 {
        None
    } else {
        Some(text::trim_end("## Memory\n"@ + record_lines(records)))
    }
}

/// Appends the line for a record.
fn push_record(rendered: &mut String, record: &MemoryRecord)
    ensures
        final(rendered)@ == old(rendered)@ + record_line(record.deep_view()),
{
    let ghost start = rendered@;
    rendered.append("- ");
    rendered.append(record.title.as_str());
    rendered.append(": ");
    let body = text::trim(record.body.as_str());
    rendered.append(body.as_str());
    assert(record.tags.len() == record.tags.deep_view().len());
    if record.tags.len() > 0 {
        rendered.append(" [tags: ");
        let tags = text::join(&record.tags, ", ");
        rendered.append(tags.as_str());
        rendered.append("]");
    }
    rendered.append("\n");
    assert(rendered@ =~= start + record_line(record.deep_view()));
}

/// The part of a prompt that tells what is remembered; none if nothing is.
pub fn render_memory_section(records: &[MemoryRecord]) -> (r: Option<String>)
    ensures
        r.deep_view() == memory_section(records.deep_view()),
{
    let ghost all = records.deep_view();
    assert(records.len() == all.len());
    if records.len() == 0 {
        return None;
    }
    let mut rendered = "## Memory\n".to_owned();
    let ghost start = rendered@;
    let mut i: usize = 0;
    assert(start + record_lines(all.take(0)) =~= start);
    while i < records.len()
        invariant
            i <= records@.len(),
            all == records.deep_view(),
            rendered@ == start + record_lines(all.take(i as int)),
        decreases records@.len() - i,
    {
        let ghost before = rendered@;
        push_record(&mut rendered, &records[i]);
        assert(all.take(i + 1).drop_last() =~= all.take(i as int));
        assert(all.take(i + 1).last() == records@[i as int].deep_view());
        assert(rendered@ =~= start + record_lines(all.take(i + 1)));
        i = i + 1;
    }
    assert(all.take(i as int) =~= all);
    Some(text::trim_tail(rendered.as_str()))
}

} // verus!
