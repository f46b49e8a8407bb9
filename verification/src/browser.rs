//! Which URLs the embedded browser opens, and how typed addresses become
//! URLs.
use vstd::prelude::*;
use crate::text::{
    chars_of, find_chars, find_from, has_prefix, is_ascii_alnum, is_ascii_digit, is_whitespace,
    is_ws, lemma_find_from, push_str, starts_with_at, str_eq, string_from_chars, trim, trim_bounds,
};

verus! {

/// The browser opens `about:blank` and web URLs only.
pub open spec fn navigable(url: Seq<char>) -> bool {
    url == "about:blank"@ || has_prefix(url, "http://"@) || has_prefix(url, "https://"@)
}

pub fn browser_url_is_navigable(url: &str) -> (b: bool)
    ensures
        b == navigable(url@),
{
    let v = chars_of(url);
    assert(v@.skip(0) =~= v@);
    str_eq(url, "about:blank") || starts_with_at(&v, 0, "http://") || starts_with_at(&v, 0, "https://")
}

/// Some character of `s` is whitespace.
pub open spec fn has_ws(s: Seq<char>) -> bool {
    exists|i: int| 0 <= i < s.len() && is_ws(#[trigger] s[i])
}

/// Every character of `s` is ASCII alphanumeric or a dot.
pub open spec fn host_like(s: Seq<char>) -> bool {
    forall|i: int| 0 <= i < s.len() ==> is_ascii_alnum(#[trigger] s[i]) || s[i] == '.'
}

/// `v` has a `:` that introduces another scheme (`name:` not followed by a
/// port number), as in `javascript:` or `file:`.
pub open spec fn foreign_scheme(v: Seq<char>) -> bool {
    match find_from(v, seq![':'], 0) {
        Some(colon) => {
            let rest = v.skip(colon + 1);
            let port = rest.len() > 0 && is_ascii_digit(rest[0]);
            !port && host_like(v.take(colon))
        },
        None => false,
    }
}

/// The URL that a typed address opens: trimmed; refused when empty or
/// holding whitespace; `about:blank` as is; an address with another scheme
/// refused; `https://` added when no web scheme is given.
pub open spec fn normalized_url(value: Seq<char>) -> Option<Seq<char>> {
    let v = trim(value);
    if v.len() == 0 || has_ws(v) {
        None
    } else if v == "about:blank"@ {
        Some(v)
    } else {
        let web = has_prefix(v, "http://"@) || has_prefix(v, "https://"@);
        if !web && foreign_scheme(v) {
            None
        } else {
            let url = if web { v } else { "https://"@ + v };
            if navigable(url) {
                Some(url)
            } else {
                None
            }
        }
    }
}

/// Some character of `v[from..to]` is whitespace.
fn any_whitespace(v: &Vec<char>, from: usize, to: usize) -> (b: bool)
    requires
        from <= to <= v.len(),
    ensures
        b == has_ws(v@.subrange(from as int, to as int)),
{
    let mut i = from;
    while i < to
        invariant
            from <= i <= to <= v.len(),
            forall|k: int| from <= k < i ==> !is_ws(#[trigger] v@[k]),
        decreases to - i,
    {
        if is_whitespace(v[i]) {
            assert(v@.subrange(from as int, to as int)[i - from] == v@[i as int]);
            return true;
        }
        i = i + 1;
    }
    assert forall|k: int| 0 <= k < v@.subrange(from as int, to as int).len() implies !is_ws(
        #[trigger] v@.subrange(from as int, to as int)[k],
    ) by {
        assert(v@.subrange(from as int, to as int)[k] == v@[from + k]);
    }
    false
}

/// Every character of `v[from..to]` is ASCII alphanumeric or a dot.
fn all_host_chars(v: &Vec<char>, from: usize, to: usize) -> (b: bool)
    requires
        from <= to <= v.len(),
    ensures
        b == host_like(v@.subrange(from as int, to as int)),
{
    let mut i = from;
    while i < to
        invariant
            from <= i <= to <= v.len(),
            forall|k: int| from <= k < i ==> is_ascii_alnum(#[trigger] v@[k]) || v@[k] == '.',
        decreases to - i,
    {
        let c = v[i];
        let ok = ('0' <= c && c <= '9') || ('a' <= c && c <= 'z') || ('A' <= c && c <= 'Z') || c == '.';
        if !ok {
            assert(v@.subrange(from as int, to as int)[i - from] == c);
            return false;
        }
        i = i + 1;
    }
    assert forall|k: int| 0 <= k < v@.subrange(from as int, to as int).len() implies is_ascii_alnum(
        #[trigger] v@.subrange(from as int, to as int)[k],
    ) || v@.subrange(from as int, to as int)[k] == '.' by {
        assert(v@.subrange(from as int, to as int)[k] == v@[from + k]);
    }
    true
}

/// Whether the address in `t` names another scheme.
fn has_foreign_scheme(t: &Vec<char>) -> (b: bool)
    ensures
        b == foreign_scheme(t@),
{
    let colon_pat = chars_of(":");
    proof {
        reveal_strlit(":");
        assert(":"@ =~= seq![':']);
        assert(t@.subrange(0, t@.len() as int) =~= t@);
        lemma_find_from(t@, seq![':'], 0);
    }
    match find_chars(t, &colon_pat, 0, t.len()) {
        Some(colon) => {
            let port = colon + 1 < t.len() && '0' <= t[colon + 1] && t[colon + 1] <= '9';
            assert(port == (t@.skip(colon + 1).len() > 0 && is_ascii_digit(t@.skip(colon + 1)[0])));
            let host = all_host_chars(t, 0, colon);
            assert(t@.subrange(0, colon as int) =~= t@.take(colon as int));
            !port && host
        },
        None => false,
    }
}

/// Turns a typed address into the URL to open, if it is an allowed one.
pub fn normalize_browser_url(value: &str) -> (r: Option<String>)
    ensures
        match r {
            Some(u) => normalized_url(value@) == Some(u@),
            None => normalized_url(value@) is None,
        },
{
    let all = chars_of(value);
    let (a, b) = trim_bounds(&all, 0, all.len());
    assert(all@.subrange(0, all@.len() as int) =~= all@);
    if a == b || any_whitespace(&all, a, b) {
        return None;
    }
    let v = string_from_chars(&all, a, b);
    if str_eq(v.as_str(), "about:blank") {
        return Some(v);
    }
    let t = crate::text::sub_vec(&all, a, b);
    assert(t@.skip(0) =~= t@);
    let web = starts_with_at(&t, 0, "http://") || starts_with_at(&t, 0, "https://");
    if !web && has_foreign_scheme(&t) {
        return None;
    }
    let url = if web {
        v
    } else {
        let mut u = "https://".to_owned();
        push_str(&mut u, v.as_str());
        u
    };
    let ok = browser_url_is_navigable(url.as_str());
    if ok {
        Some(url)
    } else {
        None
    }
}


/// Every URL that a typed address normalizes to can be opened.
pub proof fn lemma_normalized_is_navigable(value: Seq<char>)
    ensures
        normalized_url(value) matches Some(u) ==> navigable(u),
{
}

} // verus!
