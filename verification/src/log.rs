//! The log of a conversation as it is saved.

use vstd::prelude::*;

use crate::conversation::{Entry, EntryView};

verus! {

/// The log of a conversation.
#[derive(Debug)]
pub struct ConversationLog {
    pub version: u32,
    /// When the log was begun, in RFC 3339.
    pub created_at: String,
    pub model: String,
    pub provider: String,
    pub system_prompt: String,
    pub entries: Vec<Entry>,
}

/// The model of [`ConversationLog`].
#[verifier::ext_equal]
pub struct ConversationLogView {
    pub version: u32,
    pub created_at: Seq<char>,
    pub model: Seq<char>,
    pub provider: Seq<char>,
    pub system_prompt: Seq<char>,
    pub entries: Seq<EntryView>,
}

impl DeepView for ConversationLog {
    type V = ConversationLogView;

    open spec fn deep_view(&self) -> ConversationLogView {
        ConversationLogView {
            version: self.version,
            created_at: self.created_at.deep_view(),
            model: self.model.deep_view(),
            provider: self.provider.deep_view(),
            system_prompt: self.system_prompt.deep_view(),
            entries: self.entries.deep_view(),
        }
    }
}

impl Clone for ConversationLog {
    fn clone(&self) -> (r: Self)
        ensures
            r.deep_view() == self.deep_view(),
    {
        let r = ConversationLog {
            version: self.version,
            created_at: self.created_at.clone(),
            model: self.model.clone(),
            provider: self.provider.clone(),
            system_prompt: self.system_prompt.clone(),
            entries: self.entries.clone(),
        };
        assert(r.entries.deep_view() =~= self.entries.deep_view());
        r
    }
}

/// The time of `chrono::Utc::now` in RFC 3339. Nothing is claimed of a clock.
#[verifier::external_body]
pub(crate) fn utc_now() -> (r: String) {
    chrono::Utc::now().to_rfc3339()
}

impl ConversationLog {
    /// An empty log. Nothing is said of when it was begun: that is what the clock shows.
    pub fn new(model: String, provider: String, system_prompt: String) -> (r: ConversationLog)
        ensures
            r.version == 1,
            r.model@ == model@,
            r.provider@ == provider@,
            r.system_prompt@ == system_prompt@,
            r.entries@.len() == 0,
    {
        ConversationLog {
            version: 1,
            created_at: utc_now(),
            model,
            provider,
            system_prompt,
            entries: Vec::new(),
        }
    }

    /// Appends an entry.
    pub fn push(&mut self, entry: Entry)
        ensures
            final(self).deep_view() == (ConversationLogView {
                entries: old(self).deep_view().entries.push(entry.deep_view()),
                ..old(self).deep_view()
            }),
    {
        let ghost before = self.entries.deep_view();
        self.entries.push(entry);
        assert(self.entries.deep_view() =~= before.push(entry.deep_view()));
    }
}

} // verus!
