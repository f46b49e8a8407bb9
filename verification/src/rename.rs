//! Renaming a conversation in the sidebar: the draft title in its text
//! field, and the rename it commits.
use vstd::prelude::*;
use crate::sessions::{conversation_title, find_conversation, ConversationItem};
use crate::text::{chars_of, str_eq, trim, trimmed, utf8_len};
use crate::text_field::{field_wf, TextField};

verus! {

/// The title a session shows (see `conversation_title`).
pub open spec fn shown_title(cs: Seq<ConversationItem>, id: Seq<char>) -> Seq<char> {
    match find_conversation(cs, id) {
        Some(c) => c.title@,
        None => "New conversation"@,
    }
}

/// A rename in progress: the session being renamed and the draft title.
#[derive(Clone, Debug, PartialEq, Eq)]
pub struct RenameState {
    pub session_id: Option<String>,
    pub draft: TextField,
}

impl RenameState {
    /// No rename in progress.
    pub fn new() -> (r: RenameState)
        ensures
            r.session_id is None,
            r.draft.text@.len() == 0,
            field_wf(r.draft),
    {
        RenameState { session_id: None, draft: TextField::new() }
    }

    /// Starts renaming `session_id`: the draft is its current title, all
    /// selected.
    pub fn begin(&mut self, session_id: String, conversations: &[ConversationItem])
        ensures
            opt_is(final(self).session_id, session_id@),
            final(self).draft.text@ == shown_title(conversations@, session_id@),
            final(self).draft.selection.start == 0,
            final(self).draft.selection.end == utf8_len(final(self).draft.text@),
            !final(self).draft.reversed,
            final(self).draft.marked is None,
            field_wf(final(self).draft),
    {
        let title = conversation_title(conversations, session_id.as_str());
        self.session_id = Some(session_id);
        self.draft.set_text(title);
        self.draft.select_all();
    }

    /// Abandons the rename: no session, an empty draft.
    pub fn cancel(&mut self)
        ensures
            final(self).session_id is None,
            final(self).draft.text@.len() == 0,
            field_wf(final(self).draft),
    {
        self.session_id = None;
        self.draft = TextField::new();
    }

    /// Ends the rename. Returns the session and its new title (the trimmed
    /// draft) when that title is not empty and differs from the one shown;
    /// the rename ends either way.
    pub fn commit(&mut self, conversations: &[ConversationItem]) -> (r: Option<(String, String)>)
        ensures
            final(self).session_id is None,
            final(self).draft.text@.len() == 0,
            field_wf(final(self).draft),
            match old(self).session_id {
                None => r is None,
                Some(id) => {
                    let title = trim(old(self).draft.text@);
                    if title.len() > 0 && title != shown_title(conversations@, id@) {
                        r matches Some((s, t)) && s@ == id@ && t@ == title
                    } else {
                        r is None
                    }
                },
            },
    {
        let session_id = match &self.session_id {
            Some(id) => id.clone(),
            None => {
                self.draft = TextField::new();
                return None;
            },
        };
        let title = trimmed(self.draft.text.as_str());
        self.session_id = None;
        self.draft = TextField::new();
        let current = conversation_title(conversations, session_id.as_str());
        if chars_of(title.as_str()).len() > 0 && !str_eq(title.as_str(), current.as_str()) {
            Some((session_id, title))
        } else {
            None
        }
    }
}

/// `o` holds a string viewed as `s`.
pub open spec fn opt_is(o: Option<String>, s: Seq<char>) -> bool {
    o matches Some(x) && x@ == s
}

} // verus!
