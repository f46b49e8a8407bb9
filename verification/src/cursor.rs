//! Cursor and offset arithmetic for editable text (composer, URL field,
//! transcript selection).
use vstd::prelude::*;
use crate::text::{
    boundary_at_or_before, byte_offset, char_index_at, char_utf16_width, char_utf8_width,
    chars_of, is_boundary, last_char_start_at_or_before, lemma_byte_offset_ends,
    lemma_byte_offset_mono, lemma_byte_offset_step, lemma_char_index_at, lemma_utf16_bounded,
    lemma_widths, str_len, utf16_fitting_prefix, utf16_len, utf16_width, utf8_len,
};
use unicode_segmentation::UnicodeSegmentation;
use vstd::math::min;

verus! {

/// Byte offset in `text` that corresponds to a UTF-16 offset: the end of the
/// longest character prefix whose UTF-16 length does not exceed `utf16_offset`.
pub fn byte_offset_for_utf16(text: &str, utf16_offset: usize) -> (r: usize)
    ensures
        r == byte_offset(text@, utf16_fitting_prefix(text@, utf16_offset as int) as int),
{
    let chars = chars_of(text);
    let ghost s = text@;
    let n = str_len(text);
    let mut byte: usize = 0;
    let mut remaining: usize = utf16_offset;
    let mut i: usize = 0;
    proof {
        lemma_byte_offset_ends(s);
    }
    while i < chars.len()
        invariant
            chars@ == s,
            n == utf8_len(s),
            0 <= i <= s.len(),
            byte == byte_offset(s, i as int),
            remaining + utf16_len(s.take(i as int)) == utf16_offset,
        ensures
            0 <= i <= s.len(),
            byte == byte_offset(s, i as int),
            remaining + utf16_len(s.take(i as int)) == utf16_offset,
            i == s.len() || remaining < utf16_width(s[i as int]),
        decreases s.len() - i,
    {
        let c = chars[i];
        let w16 = char_utf16_width(c);
        if remaining < w16 {
            break;
        }
        proof {
            lemma_byte_offset_step(s, i as int);
            lemma_byte_offset_mono(s, i + 1, s.len() as int);
            lemma_byte_offset_ends(s);
        }
        remaining = remaining - w16;
        byte = byte + char_utf8_width(c);
        i = i + 1;
        if remaining == 0 {
            proof {
                if i < s.len() {
                    lemma_widths(s[i as int]);
                }
            }
            break;
        }
    }
    proof {
        if i < s.len() {
            lemma_byte_offset_step(s, i as int);
        }
        lemma_fitting_prefix_exact(s, utf16_offset as int, i as int);
    }
    byte
}

/// The fitting prefix is the largest prefix that fits.
proof fn lemma_fitting_prefix_exact(s: Seq<char>, units: int, k: int)
    requires
        0 <= k <= s.len(),
        utf16_len(s.take(k)) <= units,
        k == s.len() || utf16_len(s.take(k + 1)) > units,
    ensures
        utf16_fitting_prefix(s, units) == k,
    decreases s.len(),
{
    lemma_byte_offset_ends(s);
    if k == s.len() {
    } else {
        lemma_byte_offset_mono(s, k + 1, s.len() as int);
        let t = s.drop_last();
        assert(t.take(k) =~= s.take(k));
        if k + 1 <= t.len() {
            assert(t.take(k + 1) =~= s.take(k + 1));
        }
        lemma_fitting_prefix_exact(t, units, k);
    }
}

/// UTF-16 offset of a byte offset; the (clamped) byte offset must fall on a
/// character boundary.
pub fn utf16_offset_for_byte(text: &str, byte_offset_in: usize) -> (r: usize)
    requires
        is_boundary(text@, if byte_offset_in <= utf8_len(text@) { byte_offset_in as int } else { utf8_len(text@) as int }),
    ensures
        ({
            let b = if byte_offset_in <= utf8_len(text@) { byte_offset_in as int } else { utf8_len(text@) as int };
            r == utf16_len(text@.take(char_index_at(text@, b)))
        }),
{
    let chars = chars_of(text);
    let ghost s = text@;
    let n = str_len(text);
    let target = if byte_offset_in <= n { byte_offset_in } else { n };
    let ghost k = char_index_at(s, target as int);
    let mut byte: usize = 0;
    let mut units: usize = 0;
    let mut i: usize = 0;
    proof {
        lemma_byte_offset_ends(s);
        lemma_byte_offset_mono(s, 0, k);
        lemma_byte_offset_mono(s, k, s.len() as int);
    }
    while byte < target
        invariant
            chars@ == s,
            n == utf8_len(s),
            0 <= k <= s.len(),
            byte_offset(s, k) == target,
            target <= n,
            0 <= i <= k,
            byte == byte_offset(s, i as int),
            units == utf16_len(s.take(i as int)),
            utf16_len(s.take(i as int)) + (k - i) <= utf16_len(s.take(k)),
            utf16_len(s.take(k)) <= utf16_len(s),
        decreases k - i,
    {
        proof {
            if i == k {
                assert(false);
            }
            lemma_byte_offset_step(s, i as int);
            lemma_byte_offset_mono(s, i + 1, k);
            lemma_byte_offset_mono(s, k, s.len() as int);
            lemma_utf16_bounded(s);
        }
        let c = chars[i];
        byte = byte + char_utf8_width(c);
        units = units + char_utf16_width(c);
        i = i + 1;
    }
    proof {
        if i < k {
            lemma_byte_offset_mono(s, i as int, k);
        }
    }
    units
}


/// `last_char_start_at_or_before` is the largest prefix whose byte length fits.
pub(crate) proof fn lemma_last_start_exact(s: Seq<char>, b: int, k: int)
    requires
        0 <= k <= s.len(),
        byte_offset(s, k) <= b,
        k == s.len() || byte_offset(s, k + 1) > b,
    ensures
        last_char_start_at_or_before(s, b) == k,
    decreases s.len(),
{
    lemma_byte_offset_ends(s);
    if k < s.len() {
        lemma_byte_offset_mono(s, k + 1, s.len() as int);
        let t = s.drop_last();
        assert(t.take(k) =~= s.take(k));
        if k + 1 <= t.len() {
            assert(t.take(k + 1) =~= s.take(k + 1));
        }
        lemma_last_start_exact(t, b, k);
    }
}

/// The fitting prefix is a prefix of the text, and its end is a boundary.
pub(crate) proof fn lemma_fitting_prefix_bounded(s: Seq<char>, units: int)
    ensures
        utf16_fitting_prefix(s, units) <= s.len(),
        is_boundary(s, byte_offset(s, utf16_fitting_prefix(s, units) as int) as int),
    decreases s.len(),
{
    if !(utf16_len(s) <= units || s.len() == 0) {
        lemma_fitting_prefix_bounded(s.drop_last(), units);
    }
    let k = utf16_fitting_prefix(s, units) as int;
    assert(byte_offset(s, k) == byte_offset(s, k));
}

/// Index of the last character that starts at or before byte `b` (or the
/// character count when the whole text fits), together with its offset.
pub(crate) fn last_char_start(chars: &Vec<char>, b: usize) -> (r: (usize, usize))
    requires
        utf8_len(chars@) <= usize::MAX,
    ensures
        r.0 == last_char_start_at_or_before(chars@, b as int),
        r.1 == byte_offset(chars@, r.0 as int),
        r.1 <= b,
        r.0 <= chars@.len(),
{
    let ghost s = chars@;
    let mut i: usize = 0;
    let mut byte: usize = 0;
    proof {
        lemma_byte_offset_ends(s);
    }
    while i < chars.len()
        invariant
            chars@ == s,
            utf8_len(s) <= usize::MAX,
            0 <= i <= s.len(),
            byte == byte_offset(s, i as int),
            byte <= b,
        ensures
            0 <= i <= s.len(),
            byte == byte_offset(s, i as int),
            byte <= b,
            i == s.len() || byte_offset(s, i + 1) > b,
        decreases s.len() - i,
    {
        proof {
            lemma_byte_offset_step(s, i as int);
            lemma_byte_offset_mono(s, i + 1, s.len() as int);
            lemma_byte_offset_ends(s);
        }
        let w = char_utf8_width(chars[i]);
        if w > b - byte {
            break;
        }
        byte = byte + w;
        i = i + 1;
    }
    proof {
        lemma_last_start_exact(s, b as int, i as int);
    }
    (i, byte)
}

/// The nearest character boundary at or before `offset` (clamped to the end).
pub fn snap_to_char_boundary(text: &str, offset: usize) -> (r: usize)
    ensures
        r == boundary_at_or_before(text@, min(offset as int, utf8_len(text@) as int)),
        is_boundary(text@, r as int),
        r <= offset,
{
    let chars = chars_of(text);
    let n = str_len(text);
    let target = if offset < n { offset } else { n };
    let (i, byte) = last_char_start(&chars, target);
    proof {
        lemma_char_index_at(text@, i as int);
    }
    byte
}

/// Byte offsets at which the extended grapheme clusters of `text` start, in
/// the order `grapheme_indices` yields them.
pub uninterp spec fn grapheme_starts(text: Seq<char>) -> Seq<usize>;

/// Start offsets of the extended grapheme clusters of `text`
/// (`UnicodeSegmentation::grapheme_indices` with `is_extended = true`).
/// The offsets are named, not described: nothing here states how clusters are
/// formed, only that each offset starts the slice the iterator yields with
/// it, and so falls between two characters.
#[verifier::external_body]
fn grapheme_offsets(text: &str) -> (r: Vec<usize>)
    ensures
        r@ == grapheme_starts(text@),
        forall|i: int| 0 <= i < r@.len() ==> is_boundary(text@, #[trigger] r@[i] as int),
{
    text.grapheme_indices(true).map(|(offset, _)| offset).collect()
}

/// The last start in `starts` that lies before `cursor`, or 0.
pub open spec fn last_start_before(starts: Seq<usize>, cursor: int) -> int
    decreases starts.len(),
{
    if starts.len() == 0 {
        0
    } else if starts.last() < cursor {
        starts.last() as int
    } else {
        last_start_before(starts.drop_last(), cursor)
    }
}

/// The first start in `starts` that lies after `cursor`, or `end`.
pub open spec fn first_start_after(starts: Seq<usize>, cursor: int, end: int) -> int
    decreases starts.len(),
{
    if starts.len() == 0 {
        end
    } else if starts[0] > cursor {
        starts[0] as int
    } else {
        first_start_after(starts.drop_first(), cursor, end)
    }
}

/// Where a backward deletion or cursor move lands: the start of the last
/// grapheme cluster that begins before the (clamped) cursor.
pub fn previous_utf8_boundary(text: &str, cursor: usize) -> (r: usize)
    ensures
        r == last_start_before(grapheme_starts(text@), min(cursor as int, utf8_len(text@) as int)),
        is_boundary(text@, r as int),
        r as int <= cursor,
{
    let n = str_len(text);
    let c = if cursor < n { cursor } else { n };
    assert(c == min(cursor as int, utf8_len(text@) as int));
    let starts = grapheme_offsets(text);
    let ghost g = starts@;
    let mut i = starts.len();
    assert(g.take(g.len() as int) =~= g);
    proof {
        assert(byte_offset(text@, 0) == 0);
        assert(is_boundary(text@, 0));
    }
    while i > 0
        invariant
            starts@ == g,
            g == grapheme_starts(text@),
            forall|j: int| 0 <= j < g.len() ==> is_boundary(text@, #[trigger] g[j] as int),
            is_boundary(text@, 0),
            c == min(cursor as int, utf8_len(text@) as int),
            i <= g.len(),
            last_start_before(g, c as int) == last_start_before(g.take(i as int), c as int),
        decreases i,
    {
        assert(g.take(i as int).drop_last() =~= g.take(i - 1));
        if starts[i - 1] < c {
            assert(g.take(i as int).last() == g[i - 1]);
            assert(last_start_before(g.take(i as int), c as int) == g[i - 1] as int);
            return starts[i - 1];
        }
        i = i - 1;
    }
    0
}

/// Where a forward deletion or cursor move lands: the start of the first
/// grapheme cluster that begins after the (clamped) cursor, or the end.
pub fn next_utf8_boundary(text: &str, cursor: usize) -> (r: usize)
    ensures
        r == first_start_after(grapheme_starts(text@), min(cursor as int, utf8_len(text@) as int), utf8_len(text@) as int),
        is_boundary(text@, r as int),
        r as int > min(cursor as int, utf8_len(text@) as int) || r == utf8_len(text@),
{
    let n = str_len(text);
    let c = if cursor < n { cursor } else { n };
    assert(c == min(cursor as int, utf8_len(text@) as int));
    let starts = grapheme_offsets(text);
    let ghost g = starts@;
    let mut i: usize = 0;
    assert(g.skip(0) =~= g);
    proof {
        lemma_byte_offset_ends(text@);
        assert(is_boundary(text@, utf8_len(text@) as int));
    }
    while i < starts.len()
        invariant
            starts@ == g,
            g == grapheme_starts(text@),
            forall|j: int| 0 <= j < g.len() ==> is_boundary(text@, #[trigger] g[j] as int),
            is_boundary(text@, utf8_len(text@) as int),
            c == min(cursor as int, utf8_len(text@) as int),
            n == utf8_len(text@),
            i <= g.len(),
            first_start_after(g, c as int, n as int) == first_start_after(g.skip(i as int), c as int, n as int),
        decreases g.len() - i,
    {
        assert(g.skip(i as int).drop_first() =~= g.skip(i + 1));
        if starts[i] > c {
            assert(g.skip(i as int)[0] == g[i as int]);
            assert(first_start_after(g.skip(i as int), c as int, n as int) == g[i as int] as int);
            return starts[i];
        }
        i = i + 1;
    }
    n
}


/// A stored selection range of the browser's URL field, snapped to
/// character boundaries of the current text and put in order.
pub fn normalized_browser_url_range(text: &str, range: &std::ops::Range<usize>) -> (r: std::ops::Range<usize>)
    ensures
        ({
            let n = utf8_len(text@) as int;
            let s = boundary_at_or_before(text@, min(range.start as int, n));
            let e = boundary_at_or_before(text@, min(range.end as int, n));
            if s <= e {
                r.start == s && r.end == e
            } else {
                r.start == e && r.end == s
            }
        }),
{
    let start = snap_to_char_boundary(text, range.start);
    let end = snap_to_char_boundary(text, range.end);
    if start <= end {
        start..end
    } else {
        end..start
    }
}


/// A strict prefix has a shorter UTF-16 length.
proof fn lemma_utf16_prefix_shorter(s: Seq<char>, i: int)
    requires
        0 <= i < s.len(),
    ensures
        utf16_len(s.take(i)) < utf16_len(s),
{
    assert(s =~= s.take(i) + s.skip(i));
    crate::text::lemma_utf16_len_concat(s.take(i), s.skip(i));
    let t = s.skip(i);
    assert(t.len() > 0);
    lemma_widths(t.last());
    crate::text::lemma_utf16_bounded(t.drop_last());
}

/// The fitting prefix of a prefix's UTF-16 length is that prefix.
pub proof fn lemma_fitting_prefix_of_prefix(s: Seq<char>, i: int)
    requires
        0 <= i <= s.len(),
    ensures
        utf16_fitting_prefix(s, utf16_len(s.take(i)) as int) == i,
    decreases s.len(),
{
    if i < s.len() {
        lemma_utf16_prefix_shorter(s, i);
        assert(s.drop_last().take(i) =~= s.take(i));
        lemma_fitting_prefix_of_prefix(s.drop_last(), i);
    } else {
        assert(s.take(i) =~= s);
    }
}

/// Offsets round trip: turning a character boundary into a UTF-16 offset
/// (as `utf16_offset_for_byte` does) and back (as `byte_offset_for_utf16`
/// does) gives the same boundary.
pub proof fn lemma_offset_round_trip(s: Seq<char>, b: int)
    requires
        is_boundary(s, b),
    ensures
        byte_offset(
            s,
            utf16_fitting_prefix(s, utf16_len(s.take(char_index_at(s, b))) as int) as int,
        ) == b,
{
    let i = char_index_at(s, b);
    lemma_fitting_prefix_of_prefix(s, i);
}

/// The fitting prefix is the largest that fits: its UTF-16 length is at
/// most `units`, every longer prefix exceeds `units`, and so the byte offset
/// that `byte_offset_for_utf16` returns is the largest character boundary
/// whose UTF-16 offset does not exceed `units` (a split surrogate pair rounds
/// down).
pub proof fn lemma_fitting_prefix_is_largest(s: Seq<char>, units: int)
    requires
        units >= 0,
    ensures
        utf16_fitting_prefix(s, units) <= s.len(),
        utf16_len(s.take(utf16_fitting_prefix(s, units) as int)) <= units,
        forall|j: int|
            utf16_fitting_prefix(s, units) < j <= s.len() ==> utf16_len(#[trigger] s.take(j)) > units,
        is_boundary(s, byte_offset(s, utf16_fitting_prefix(s, units) as int) as int),
        forall|j: int|
            0 <= j <= s.len() && utf16_len(#[trigger] s.take(j)) <= units ==> byte_offset(s, j) <= byte_offset(
                s,
                utf16_fitting_prefix(s, units) as int,
            ),
    decreases s.len(),
{
    let k = utf16_fitting_prefix(s, units) as int;
    if utf16_len(s) <= units || s.len() == 0 {
        assert(s.take(s.len() as int) =~= s);
    } else {
        let t = s.drop_last();
        lemma_fitting_prefix_is_largest(t, units);
        assert forall|j: int| 0 <= j <= t.len() implies #[trigger] s.take(j) == t.take(j) by {
            assert(s.take(j) =~= t.take(j));
        }
        assert(s.take(s.len() as int) =~= s);
        assert(s.take(k) == t.take(k));
        assert forall|j: int| k < j <= s.len() implies utf16_len(#[trigger] s.take(j)) > units by {
            if j <= t.len() {
                assert(s.take(j) == t.take(j));
            }
        }
    }
    assert(byte_offset(s, k) == byte_offset(s, k));
    assert forall|j: int| 0 <= j <= s.len() && utf16_len(#[trigger] s.take(j)) <= units implies byte_offset(s, j)
        <= byte_offset(s, k) by {
        lemma_byte_offset_mono(s, j, k);
    }
}

} // verus!
