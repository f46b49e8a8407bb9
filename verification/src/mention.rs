//! `@` mentions in the composer: the token being typed, the workspace files
//! it can name, and the candidates that match it.
use vstd::prelude::*;
use crate::commands::MENTION_MENU_LIMIT;
use crate::file_tree::{join_path, join_tree_path, DirEntry, DirListing};
use crate::markdown::{last_ws_in, lemma_last_ws};
use crate::order::{sort_strings, sorted_strings, string_views};
use crate::text::{
    byte_offset, char_utf8_width, chars_of, find_chars, find_from, is_whitespace, last_char_start_at_or_before, lemma_byte_offset_ends, lemma_byte_offset_step, lowercase,
    string_from_chars, to_lowercase, utf8_len,
};

verus! {

/// The `@` token that ends at the cursor: the byte offset of its `@` and
/// the text typed after it. The token runs back to the last whitespace
/// before the cursor (which is snapped to a character boundary).
pub open spec fn mention_query(s: Seq<char>, cursor: int) -> Option<(int, Seq<char>)> {
    let ci = last_char_start_at_or_before(s, vstd::math::min(cursor, utf8_len(s) as int));
    let start = match last_ws_in(s, 0, ci) {
        Some(j) => j + 1,
        None => 0,
    };
    let token = s.subrange(start, ci);
    if token.len() > 0 && token[0] == '@' {
        Some((byte_offset(s, start) as int, token.drop_first()))
    } else {
        None
    }
}

/// Character index and byte offset of the character boundary `b`.
fn char_index_of_boundary(v: &Vec<char>, b: usize) -> (r: (usize, usize))
    requires
        utf8_len(v@) <= usize::MAX,
    ensures
        r.0 == last_char_start_at_or_before(v@, b as int),
        r.1 == byte_offset(v@, r.0 as int),
        r.0 <= v@.len(),
{
    crate::cursor::last_char_start(v, b)
}

/// The mention token at the cursor, if the text there is one.
pub fn mention_query_at_cursor(text: &str, cursor: usize) -> (r: Option<(usize, String)>)
    ensures
        match r {
            Some((at, q)) => mention_query(text@, cursor as int) == Some((at as int, q@)),
            None => mention_query(text@, cursor as int) is None,
        },
{
    let v = chars_of(text);
    let n = crate::text::str_len(text);
    let target = if cursor < n { cursor } else { n };
    let (ci, _) = char_index_of_boundary(&v, target);
    let mut j = ci;
    while j > 0 && !is_whitespace(v[j - 1])
        invariant
            0 <= j <= ci <= v@.len(),
            last_ws_in(v@, 0, ci as int) == last_ws_in(v@, 0, j as int),
        decreases j,
    {
        j = j - 1;
    }
    proof {
        lemma_last_ws(v@, 0, j as int);
    }
    let start = j;
    if start < ci && v[start] == '@' {
        let q = string_from_chars(&v, start + 1, ci);
        assert(v@.subrange(start as int, ci as int).drop_first() =~= v@.subrange(start + 1, ci as int));
        let at = byte_offset_of(&v, start);
        Some((at, q))
    } else {
        None
    }
}

/// Byte offset of the character with index `i`.
fn byte_offset_of(v: &Vec<char>, i: usize) -> (b: usize)
    requires
        i <= v.len(),
        utf8_len(v@) <= usize::MAX,
    ensures
        b == byte_offset(v@, i as int),
{
    let mut k: usize = 0;
    let mut b: usize = 0;
    proof {
        lemma_byte_offset_ends(v@);
    }
    while k < i
        invariant
            0 <= k <= i <= v.len(),
            utf8_len(v@) <= usize::MAX,
            b == byte_offset(v@, k as int),
        decreases i - k,
    {
        proof {
            lemma_byte_offset_step(v@, k as int);
            crate::text::lemma_byte_offset_mono(v@, k + 1, v@.len() as int);
            lemma_byte_offset_ends(v@);
        }
        b = b + char_utf8_width(v[k]);
        k = k + 1;
    }
    b
}

/// The file paths of one listing, in order.
pub open spec fn listing_files(dir: Seq<char>, es: Seq<DirEntry>) -> Seq<Seq<char>>
    decreases es.len(),
{
    if es.len() == 0 {
        Seq::empty()
    } else if es.last().is_dir {
        listing_files(dir, es.drop_last())
    } else {
        listing_files(dir, es.drop_last()).push(join_path(dir, es.last().name@))
    }
}

/// The workspace-relative paths of every file in the listings.
pub open spec fn all_files(ls: Seq<DirListing>) -> Seq<Seq<char>>
    decreases ls.len(),
{
    if ls.len() == 0 {
        Seq::empty()
    } else {
        all_files(ls.drop_last()) + listing_files(ls.last().dir@, ls.last().entries@)
    }
}

/// Workspace-relative paths of every file in the fetched directory
/// listings, sorted.
pub fn mention_file_paths(entries: &Vec<DirListing>) -> (r: Vec<String>)
    ensures
        sorted_strings(string_views(r@)),
        string_views(r@).to_multiset() == all_files(entries@).to_multiset(),
{
    let mut paths: Vec<String> = Vec::new();
    let mut i: usize = 0;
    while i < entries.len()
        invariant
            0 <= i <= entries.len(),
            string_views(paths@) == all_files(entries@.take(i as int)),
        decreases entries.len() - i,
    {
        let listing = &entries[i];
        let ghost before = string_views(paths@);
        let mut k: usize = 0;
        while k < listing.entries.len()
            invariant
                0 <= k <= listing.entries.len(),
                string_views(paths@) == before + listing_files(listing.dir@, listing.entries@.take(k as int)),
            decreases listing.entries.len() - k,
        {
            let e = &listing.entries[k];
            proof {
                assert(listing.entries@.take(k + 1).drop_last() =~= listing.entries@.take(k as int));
            }
            if !e.is_dir {
                let p = join_tree_path(listing.dir.as_str(), e.name.as_str());
                let ghost old_p = paths@;
                paths.push(p);
                assert(string_views(paths@) =~= string_views(old_p).push(p@));
            }
            k = k + 1;
        }
        proof {
            assert(listing.entries@.take(k as int) =~= listing.entries@);
            assert(entries@.take(i + 1).drop_last() =~= entries@.take(i as int));
        }
        i = i + 1;
    }
    assert(entries@.take(i as int) =~= entries@);
    sort_strings(paths)
}

/// The paths whose lowercase form contains the lowercase query `q` (every
/// path when `q` is empty), in order.
pub open spec fn matching_paths(paths: Seq<Seq<char>>, q: Seq<char>) -> Seq<Seq<char>>
    decreases paths.len(),
{
    if paths.len() == 0 {
        Seq::empty()
    } else if q.len() == 0 || find_from(lowercase(paths.last()), q, 0) is Some {
        matching_paths(paths.drop_last(), q).push(paths.last())
    } else {
        matching_paths(paths.drop_last(), q)
    }
}

/// The first `n` elements of `s` (all of them if it has fewer).
pub open spec fn first_n<A>(s: Seq<A>, n: int) -> Seq<A> {
    if s.len() <= n {
        s
    } else {
        s.take(n)
    }
}

/// The mention candidates for a query: the paths that contain it, ignoring
/// case, at most `MENTION_MENU_LIMIT` of them.
pub fn filter_mention_candidates(paths: &[String], query: &str) -> (r: Vec<String>)
    ensures
        string_views(r@) == first_n(
            matching_paths(string_views(paths@), lowercase(query@)),
            MENTION_MENU_LIMIT as int,
        ),
{
    let q = to_lowercase(query);
    let qv = chars_of(q.as_str());
    let mut r: Vec<String> = Vec::new();
    let mut k: usize = 0;
    while k < paths.len()
        invariant
            0 <= k <= paths.len(),
            qv@ == lowercase(query@),
            string_views(r@) == first_n(
                matching_paths(string_views(paths@).take(k as int), qv@),
                MENTION_MENU_LIMIT as int,
            ),
        decreases paths.len() - k,
    {
        proof {
            assert(string_views(paths@).take(k + 1).drop_last() =~= string_views(paths@).take(k as int));
            assert(string_views(paths@).take(k + 1).last() == paths@[k as int]@);
        }
        if r.len() < MENTION_MENU_LIMIT {
            let matched = if qv.len() == 0 {
                true
            } else {
                let lower = to_lowercase(paths[k].as_str());
                let lv = chars_of(lower.as_str());
                assert(lv@.subrange(0, lv@.len() as int) =~= lv@);
                find_chars(&lv, &qv, 0, lv.len()).is_some()
            };
            if matched {
                let ghost old_r = r@;
                r.push(paths[k].clone());
                assert(string_views(r@) =~= string_views(old_r).push(paths@[k as int]@));
            }
        } else {
            let ghost m = matching_paths(string_views(paths@).take(k + 1), qv@);
            assert(first_n(m, MENTION_MENU_LIMIT as int) =~= first_n(
                matching_paths(string_views(paths@).take(k as int), qv@),
                MENTION_MENU_LIMIT as int,
            ));
        }
        k = k + 1;
    }
    assert(string_views(paths@).take(k as int) =~= string_views(paths@));
    r
}


/// Mention candidates are bounded and relevant: at most
/// `MENTION_MENU_LIMIT` of them, each a path whose lowercase form contains
/// the lowercase query (any path when the query is empty).
pub proof fn lemma_candidates_match(paths: Seq<Seq<char>>, q: Seq<char>)
    ensures
        first_n(matching_paths(paths, q), MENTION_MENU_LIMIT as int).len() <= MENTION_MENU_LIMIT,
        forall|i: int|
            0 <= i < first_n(matching_paths(paths, q), MENTION_MENU_LIMIT as int).len() ==> q.len() == 0
                || find_from(
                lowercase(#[trigger] first_n(matching_paths(paths, q), MENTION_MENU_LIMIT as int)[i]),
                q,
                0,
            ) is Some,
{
    lemma_matching_paths(paths, q);
}

proof fn lemma_matching_paths(paths: Seq<Seq<char>>, q: Seq<char>)
    ensures
        forall|i: int|
            0 <= i < matching_paths(paths, q).len() ==> q.len() == 0 || find_from(
                lowercase(#[trigger] matching_paths(paths, q)[i]),
                q,
                0,
            ) is Some,
    decreases paths.len(),
{
    if paths.len() > 0 {
        lemma_matching_paths(paths.drop_last(), q);
    }
}

/// `q` occurs somewhere in `s` (the empty text occurs in every text).
pub open spec fn contains_text(s: Seq<char>, q: Seq<char>) -> bool {
    exists|k: int| 0 <= k && k + q.len() <= s.len() && #[trigger] s.subrange(k, k + q.len()) == q
}

proof fn lemma_find_means_contains(s: Seq<char>, q: Seq<char>)
    ensures
        (q.len() == 0 || find_from(s, q, 0) is Some) == contains_text(s, q),
{
    crate::text::lemma_find_from(s, q, 0);
    if q.len() == 0 {
        assert(s.subrange(0, 0) =~= q);
    } else {
        match find_from(s, q, 0) {
            Some(i) => {
                assert(s.subrange(i, i + q.len()) == q);
            },
            None => {
                if contains_text(s, q) {
                    let k = choose|k: int| 0 <= k && k + q.len() <= s.len() && #[trigger] s.subrange(k, k + q.len()) == q;
                    assert(crate::text::occurs_at(s, q, k));
                }
            },
        }
    }
}

proof fn lemma_matching_is_filter(paths: Seq<Seq<char>>, q: Seq<char>)
    ensures
        matching_paths(paths, q) == paths.filter(|p: Seq<char>| contains_text(lowercase(p), q)),
    decreases paths.len(),
{
    let pred = |p: Seq<char>| contains_text(lowercase(p), q);
    if paths.len() == 0 {
        assert(paths.filter(pred) =~= Seq::<Seq<char>>::empty()) by {
            paths.lemma_filter_len(pred);
        }
    } else {
        lemma_matching_is_filter(paths.drop_last(), q);
        lemma_find_means_contains(lowercase(paths.last()), q);
        assert(paths =~= paths.drop_last().push(paths.last()));
        paths.drop_last().lemma_filter_push(paths.last(), pred);
    }
}

/// The mention candidates are exactly the paths whose lowercase form
/// contains the lowercase query anywhere (every path for an empty query),
/// in their order, up to `MENTION_MENU_LIMIT` of them.
pub proof fn lemma_candidates_are_the_matches(paths: Seq<Seq<char>>, query: Seq<char>)
    ensures
        first_n(matching_paths(paths, lowercase(query)), MENTION_MENU_LIMIT as int) == first_n(
            paths.filter(|p: Seq<char>| contains_text(lowercase(p), lowercase(query))),
            MENTION_MENU_LIMIT as int,
        ),
{
    lemma_matching_is_filter(paths, lowercase(query));
}

} // verus!
