//! Files attached to the next prompt: what may be attached, and the error
//! shown when a file is refused.
use vstd::prelude::*;
use crate::paths::{attachment_mime, mime_for, path_extension};
use crate::text::{decimal, decimal_string, push_str, str_eq};

verus! {

/// The largest file that can be attached, in bytes (10 MB).
pub const MAX_ATTACHMENT_BYTES: u64 = 10485760;

/// A file attached to a prompt, with its MIME type when its extension
/// names one.
#[derive(Clone, Debug, PartialEq, Eq)]
pub struct Attachment {
    pub path: String,
    pub mime: Option<String>,
}

/// What looking at a path on disk found.
#[derive(Clone, Debug, PartialEq, Eq)]
pub enum FileProbe {
    /// The path is not a regular file.
    NotAFile,
    /// A file of this many bytes.
    File(u64),
    /// A file whose metadata could not be read, with the reason.
    Unreadable(String),
}

/// The MIME type attached with a path.
pub open spec fn mime_of(path: Seq<char>) -> Option<Seq<char>> {
    match path_extension(path) {
        Some(e) => mime_for(e),
        None => None,
    }
}

/// The error shown for a refused file, if the probe refuses it.
pub open spec fn probe_error(probe: FileProbe) -> Option<Seq<char>> {
    match probe {
        FileProbe::NotAFile => Some("Only files can be attached."@),
        FileProbe::File(size) => if size > MAX_ATTACHMENT_BYTES {
            Some(
                "File is too large. Attachments are limited to "@ + decimal(
                    (MAX_ATTACHMENT_BYTES / 1048576u64) as nat,
                ) + " MB."@,
            )
        } else {
            None
        },
        FileProbe::Unreadable(reason) => Some("Could not read file: "@ + reason@),
    }
}

/// `items` holds an attachment of `path`.
pub open spec fn holds_path(items: Seq<Attachment>, path: Seq<char>) -> bool {
    exists|i: int| 0 <= i < items.len() && #[trigger] items[i].path@ == path
}

/// The attachments of the next prompt and the last refusal.
#[derive(Clone, Debug, PartialEq, Eq)]
pub struct Attachments {
    pub items: Vec<Attachment>,
    pub error: Option<String>,
}

impl Attachments {
    /// No attachment and no error.
    pub fn new() -> (a: Attachments)
        ensures
            a.items@.len() == 0,
            a.error is None,
    {
        Attachments { items: Vec::new(), error: None }
    }

    /// Attaches the file at `path`, which `probe` describes. A refused file
    /// sets the error and attaches nothing; a file already attached changes
    /// nothing; any other is appended, with its MIME type, and clears the
    /// error.
    pub fn add(&mut self, path: &str, probe: FileProbe)
        ensures
            match probe_error(probe) {
                Some(message) => {
                    &&& final(self).items == old(self).items
                    &&& final(self).error is Some
                    &&& final(self).error->0@ == message
                },
                None => if holds_path(old(self).items@, path@) {
                    *final(self) == *old(self)
                } else {
                    &&& final(self).items@.len() == old(self).items@.len() + 1
                    &&& final(self).items@.take(old(self).items@.len() as int) == old(self).items@
                    &&& final(self).items@.last().path@ == path@
                    &&& match final(self).items@.last().mime {
                        Some(m) => mime_of(path@) == Some(m@),
                        None => mime_of(path@) is None,
                    }
                    &&& final(self).error is None
                },
            },
    {
        match probe {
            FileProbe::NotAFile => {
                self.error = Some(String::from_str("Only files can be attached."));
                return;
            },
            FileProbe::File(size) => {
                if size > MAX_ATTACHMENT_BYTES {
                    let mut message = String::from_str("File is too large. Attachments are limited to ");
                    push_str(&mut message, decimal_string(MAX_ATTACHMENT_BYTES / 1048576u64).as_str());
                    push_str(&mut message, " MB.");
                    self.error = Some(message);
                    return;
                }
            },
            FileProbe::Unreadable(reason) => {
                let mut message = String::from_str("Could not read file: ");
                push_str(&mut message, reason.as_str());
                self.error = Some(message);
                return;
            },
        }
        let mut i: usize = 0;
        while i < self.items.len()
            invariant
                *self == *old(self),
                probe_error(probe) is None,
                0 <= i <= self.items@.len(),
                forall|j: int| 0 <= j < i ==> #[trigger] self.items@[j].path@ != path@,
            decreases self.items@.len() - i,
        {
            if str_eq(self.items[i].path.as_str(), path) {
                assert(holds_path(self.items@, path@));
                return;
            }
            i = i + 1;
        }
        let mime = match attachment_mime(path) {
            Some(m) => Some(m.to_string()),
            None => None,
        };
        let ghost before = self.items@;
        self.items.push(Attachment { path: path.to_string(), mime });
        assert(self.items@.take(before.len() as int) =~= before);
        self.error = None;
    }

    /// Removes the attachment at `index`, if there is one.
    pub fn remove(&mut self, index: usize)
        ensures
            final(self).error == old(self).error,
            final(self).items@ == if index < old(self).items@.len() {
                old(self).items@.remove(index as int)
            } else {
                old(self).items@
            },
    {
        if index < self.items.len() {
            self.items.remove(index);
        }
    }
}

} // verus!
