//! What the conversation surface shows besides the transcript: the empty
//! state, the labels of the composer's pickers, the error banner, the
//! attachment chips and the presence line.
use vstd::prelude::*;
use crate::labels::non_empty_label;
use crate::sessions::{find_conversation, find_conversation_exec, ConversationItem};
use crate::text::{decimal, decimal_string, opt_view, push_str, str_len, trim};
use crate::transcript::{TranscriptItem, TranscriptRole};

verus! {

/// The heading and the hint shown over an empty transcript.
pub fn empty_transcript_text(session_selected: bool) -> (r: (&'static str, &'static str))
    ensures
        session_selected ==> r.0@ == "ready when you are"@ && r.1@ == "Send a message to begin this conversation."@,
        !session_selected ==> r.0@ == "start a coding session"@ && r.1@
            == "Choose a conversation or create a new one from the rail."@,
{
    if session_selected {
        ("ready when you are", "Send a message to begin this conversation.")
    } else {
        ("start a coding session", "Choose a conversation or create a new one from the rail.")
    }
}

/// The model picker's label: the model (or `choose a model`), followed by
/// ` · ` and the thinking variant when one is set.
pub open spec fn model_display(model: Option<Seq<char>>, thinking: Option<Seq<char>>) -> Seq<char> {
    let label = match model {
        Some(m) => if trim(m).len() > 0 {
            m
        } else {
            "choose a model"@
        },
        None => "choose a model"@,
    };
    match thinking {
        Some(t) => if t.len() > 0 {
            label + " · "@ + t
        } else {
            label
        },
        None => label,
    }
}

/// The model picker's label (see `model_display`).
pub fn model_display_label(model: Option<&str>, thinking: Option<&str>) -> (r: String)
    ensures
        r@ == model_display(
            match model {
                Some(m) => Some(m@),
                None => None,
            },
            match thinking {
                Some(t) => Some(t@),
                None => None,
            },
        ),
{
    let mut label = non_empty_label(model, "choose a model");
    if let Some(t) = thinking {
        proof {
            crate::text::lemma_len_le_utf8_len(t@);
            if t@.len() == 0 {
                assert(crate::text::utf8_len(t@) == 0);
            }
        }
        if str_len(t) > 0 {
            push_str(&mut label, " · ");
            push_str(&mut label, t);
        }
    }
    label
}

/// The error banner's title and action: a failed connection offers a
/// retry, any other daemon error a dismissal.
pub fn error_banner(connection_failed: bool) -> (r: (&'static str, &'static str))
    ensures
        connection_failed ==> r.0@ == "Connection issue"@ && r.1@ == "retry"@,
        !connection_failed ==> r.0@ == "Daemon error"@ && r.1@ == "dismiss"@,
{
    if connection_failed {
        ("Connection issue", "retry")
    } else {
        ("Daemon error", "dismiss")
    }
}

/// How many clients are present: `1 client`, `2 clients`, ...
pub fn presence_label(count: usize) -> (r: String)
    ensures
        r@ == decimal(count as nat) + " client"@ + (if count == 1 { Seq::<char>::empty() } else { "s"@ }),
{
    let mut s = decimal_string(count as u64);
    push_str(&mut s, " client");
    if count != 1 {
        push_str(&mut s, "s");
    } else {
        proof {
            assert(s@ + Seq::<char>::empty() =~= s@);
        }
    }
    s
}

/// What `Path::file_name` gives for a path: its last component, when that
/// is a name (not `..`, not empty).
pub uninterp spec fn path_file_name(path: Seq<char>) -> Option<Seq<char>>;

/// `Path::new(path).file_name()`, as a string when it is valid UTF-8 (it
/// always is for a `&str`). Only the name `path_file_name` is stated of the
/// result.
#[verifier::external_body]
fn file_name_of(path: &str) -> (r: Option<String>)
    ensures
        opt_view(r) == path_file_name(path@),
{
    std::path::Path::new(path).file_name().and_then(|name| name.to_str()).map(|name| name.to_owned())
}

/// An attachment chip's label: the file's name, or the whole path when it
/// has none.
pub fn attachment_label(path: &str) -> (r: String)
    ensures
        r@ == (match path_file_name(path@) {
            Some(name) => name,
            None => path@,
        }),
{
    match file_name_of(path) {
        Some(name) => name,
        None => path.to_owned(),
    }
}

/// Whether the last turn of the selected session failed.
pub fn selected_turn_failed(conversations: &[ConversationItem], selected: Option<&str>) -> (b: bool)
    ensures
        b == (match selected {
            Some(id) => match find_conversation(conversations@, id@) {
                Some(c) => c.last_turn_failed,
                None => false,
            },
            None => false,
        }),
{
    match selected {
        Some(id) => match find_conversation_exec(conversations, id) {
            Some(c) => c.last_turn_failed,
            None => false,
        },
        None => false,
    }
}

/// Whether the transcript ends with a message of the user.
pub fn last_message_is_user(transcript: &[TranscriptItem]) -> (b: bool)
    ensures
        b == (transcript@.len() > 0 && transcript@.last().role == TranscriptRole::User),
{
    if transcript.len() == 0 {
        false
    } else {
        match transcript[transcript.len() - 1].role {
            TranscriptRole::User => true,
            TranscriptRole::Assistant => false,
        }
    }
}

} // verus!
