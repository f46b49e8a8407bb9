//! Paths and titles as the sidebar shows them: session directories
//! relative to the home directory, compact titles, and the MIME type of an
//! attachment.
use vstd::prelude::*;
use crate::sessions::{find_conversation, find_conversation_exec, ConversationItem};
use crate::text::{
    chars_of, eq_ignore_ascii_case, eq_ignore_case, first_word, opt_view, push_char, push_str,
    word_ranges, words, lemma_word_bounds,
};
use crate::tools::join_spaced;

verus! {

/// What `Path::strip_prefix` leaves of `path` once `home` is taken off (as
/// a string), or none when `home` is not a prefix of it.
pub uninterp spec fn path_suffix(path: Seq<char>, home: Seq<char>) -> Option<Seq<char>>;

/// `Path::new(path).strip_prefix(home)`, the rest converted back to a
/// string (`to_string_lossy`, which keeps a string that came from UTF-8 as
/// it is). Only the name `path_suffix` is stated of the result.
#[verifier::external_body]
fn strip_path_prefix(path: &str, home: &str) -> (r: Option<String>)
    ensures
        opt_view(r) == path_suffix(path@, home@),
{
    std::path::Path::new(path).strip_prefix(home).ok().map(|rest| rest.to_string_lossy().into_owned())
}

/// A path as the sidebar shows it: under the home directory it starts
/// with `~`; elsewhere, or with no home directory, it is shown as is.
pub open spec fn display_path(path: Seq<char>, home: Option<Seq<char>>) -> Seq<char> {
    match home {
        None => path,
        Some(h) => match path_suffix(path, h) {
            None => path,
            Some(rest) => if rest.len() == 0 {
                "~"@
            } else {
                "~/"@ + rest
            },
        },
    }
}

pub fn display_path_from_home(path: &str, home: Option<&str>) -> (r: String)
    ensures
        r@ == display_path(path@, match home {
            Some(h) => Some(h@),
            None => None,
        }),
{
    let home = match home {
        Some(h) => h,
        None => return path.to_owned(),
    };
    match strip_path_prefix(path, home) {
        None => path.to_owned(),
        Some(rest) => {
            let rv = chars_of(rest.as_str());
            if rv.len() == 0 {
                "~".to_owned()
            } else {
                let mut s = "~/".to_owned();
                push_str(&mut s, rest.as_str());
                s
            }
        },
    }
}

/// The directory of the selected session, as the sidebar shows it.
pub open spec fn selected_path(
    cs: Seq<ConversationItem>,
    selected: Option<Seq<char>>,
    home: Option<Seq<char>>,
) -> Option<Seq<char>> {
    match selected {
        None => None,
        Some(id) => match find_conversation(cs, id) {
            None => None,
            Some(c) => match c.cwd {
                Some(cwd) => if cwd@.len() > 0 {
                    Some(display_path(cwd@, home))
                } else {
                    None
                },
                None => None,
            },
        },
    }
}

/// The directory of the selected session, relative to `home`.
pub fn selected_session_path(
    conversations: &[ConversationItem],
    selected_session: Option<&str>,
    home: Option<&str>,
) -> (r: Option<String>)
    ensures
        opt_view(r) == selected_path(
            conversations@,
            match selected_session {
                Some(s) => Some(s@),
                None => None,
            },
            match home {
                Some(h) => Some(h@),
                None => None,
            },
        ),
{
    let id = match selected_session {
        Some(s) => s,
        None => return None,
    };
    let c = match find_conversation_exec(conversations, id) {
        Some(c) => c,
        None => return None,
    };
    match &c.cwd {
        Some(cwd) => {
            let v = chars_of(cwd.as_str());
            if v.len() > 0 {
                Some(display_path_from_home(cwd.as_str(), home))
            } else {
                None
            }
        },
        None => None,
    }
}

/// Most characters of a compact session title, before the ellipsis.
pub const MAX_TITLE_CHARS: usize = 28;

/// A session title on one line: its words joined by single spaces, cut to
/// `MAX_TITLE_CHARS` characters with an ellipsis when longer.
pub open spec fn compact_title(title: Seq<char>) -> Seq<char> {
    let normalized = join_spaced(words(title));
    if normalized.len() > MAX_TITLE_CHARS {
        normalized.take(MAX_TITLE_CHARS as int).push('…')
    } else {
        normalized
    }
}

/// The words of `s[i..]`.
pub open spec fn words_from(s: Seq<char>, i: int) -> Seq<Seq<char>> {
    word_ranges(s, i).map_values(|r: (int, int)| s.subrange(r.0, r.1))
}

pub fn compact_session_title(title: &str) -> (r: String)
    ensures
        r@ == compact_title(title@),
{
    let v = chars_of(title);
    let ghost s = v@;
    let mut out: Vec<char> = Vec::new();
    let mut i: usize = 0;
    let ghost mut done: Seq<Seq<char>> = Seq::empty();
    let mut any_word = false;
    proof {
        assert(words(s) =~= words_from(s, 0));
    }
    loop
        invariant
            0 <= i <= v.len(),
            s == v@,
            s == title@,
            any_word == (done.len() > 0),
            out@ == join_spaced(done),
            done + words_from(s, i as int) == words(s),
        ensures
            out@ == join_spaced(words(s)),
            s == title@,
        decreases v.len() - i,
    {
        proof {
            lemma_word_bounds(s, i as int);
        }
        match first_word(&v, i) {
            None => {
                assert(words_from(s, i as int) =~= Seq::<Seq<char>>::empty());
                assert(done + Seq::<Seq<char>>::empty() =~= done);
                assert(done =~= words(s));
                break;
            },
            Some((a, b)) => {
                let ghost word = s.subrange(a as int, b as int);
                if any_word {
                    out.push(' ');
                }
                let mut k = a;
                let ghost before = out@;
                while k < b
                    invariant
                        a <= k <= b <= v.len(),
                        out@ == before + v@.subrange(a as int, k as int),
                    decreases b - k,
                {
                    out.push(v[k]);
                    assert(v@.subrange(a as int, k + 1) =~= v@.subrange(a as int, k as int).push(v@[k as int]));
                    k = k + 1;
                }
                proof {
                    let nd = done.push(word);
                    assert(nd.drop_last() =~= done);
                    if done.len() == 0 {
                        assert(out@ =~= word);
                    } else {
                        assert(out@ =~= join_spaced(done) + seq![' '] + word);
                    }
                    assert(words_from(s, i as int) =~= seq![word] + words_from(s, b as int));
                    assert(nd + words_from(s, b as int) =~= done + words_from(s, i as int));
                    done = nd;
                }
                any_word = true;
                i = b;
            },
        }
    }
    let n = out.len();
    if n > MAX_TITLE_CHARS {
        let mut r = crate::text::string_from_chars(&out, 0, MAX_TITLE_CHARS);
        push_char(&mut r, '…');
        r
    } else {
        assert(out@.subrange(0, n as int) =~= out@);
        crate::text::string_from_chars(&out, 0, n)
    }
}

/// What `Path::extension` gives for a path: the text after the last dot of
/// its file name, when there is one that does not start the name.
pub uninterp spec fn path_extension(path: Seq<char>) -> Option<Seq<char>>;

/// `Path::new(path).extension()`, as a string. Only the name
/// `path_extension` is stated of the result.
#[verifier::external_body]
fn extension_of(path: &str) -> (r: Option<String>)
    ensures
        opt_view(r) == path_extension(path@),
{
    std::path::Path::new(path).extension().and_then(|e| e.to_str()).map(|e| e.to_owned())
}

/// The MIME type of a file extension, ignoring ASCII case, for the image,
/// document and text types that can be attached.
pub open spec fn mime_for(ext: Seq<char>) -> Option<Seq<char>> {
    if eq_ignore_ascii_case(ext, "png"@) {
        Some("image/png"@)
    } else if eq_ignore_ascii_case(ext, "jpg"@) || eq_ignore_ascii_case(ext, "jpeg"@) {
        Some("image/jpeg"@)
    } else if eq_ignore_ascii_case(ext, "gif"@) {
        Some("image/gif"@)
    } else if eq_ignore_ascii_case(ext, "webp"@) {
        Some("image/webp"@)
    } else if eq_ignore_ascii_case(ext, "svg"@) {
        Some("image/svg+xml"@)
    } else if eq_ignore_ascii_case(ext, "pdf"@) {
        Some("application/pdf"@)
    } else if eq_ignore_ascii_case(ext, "txt"@) {
        Some("text/plain"@)
    } else if eq_ignore_ascii_case(ext, "md"@) {
        Some("text/markdown"@)
    } else if eq_ignore_ascii_case(ext, "json"@) {
        Some("application/json"@)
    } else {
        None
    }
}

/// The MIME type of an extension.
fn mime_for_extension(e: &Vec<char>) -> (r: Option<&'static str>)
    ensures
        match r {
            Some(m) => mime_for(e@) == Some(m@),
            None => mime_for(e@) is None,
        },
{
    if eq_ignore_case(e, "png") {
        Some("image/png")
    } else if eq_ignore_case(e, "jpg") || eq_ignore_case(e, "jpeg") {
        Some("image/jpeg")
    } else if eq_ignore_case(e, "gif") {
        Some("image/gif")
    } else if eq_ignore_case(e, "webp") {
        Some("image/webp")
    } else if eq_ignore_case(e, "svg") {
        Some("image/svg+xml")
    } else if eq_ignore_case(e, "pdf") {
        Some("application/pdf")
    } else if eq_ignore_case(e, "txt") {
        Some("text/plain")
    } else if eq_ignore_case(e, "md") {
        Some("text/markdown")
    } else if eq_ignore_case(e, "json") {
        Some("application/json")
    } else {
        None
    }
}

/// The MIME type of an attachment, from its path's extension.
pub fn attachment_mime(path: &str) -> (r: Option<&'static str>)
    ensures
        match r {
            Some(m) => path_extension(path@) is Some && mime_for(path_extension(path@)->0) == Some(m@),
            None => path_extension(path@) is None || mime_for(path_extension(path@)->0) is None,
        },
{
    match extension_of(path) {
        Some(e) => {
            let ev = chars_of(e.as_str());
            mime_for_extension(&ev)
        },
        None => None,
    }
}


/// A compact title never exceeds `MAX_TITLE_CHARS` characters and the
/// ellipsis.
pub proof fn lemma_compact_title_len(title: Seq<char>)
    ensures
        compact_title(title).len() <= MAX_TITLE_CHARS + 1,
{
}

} // verus!
