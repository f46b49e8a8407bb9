//! Text model: characters, UTF-8 / UTF-16 widths and byte offsets.
//!
//! Strings are viewed as sequences of `char`; byte offsets into a string are
//! the UTF-8 lengths of its character prefixes.
use vstd::prelude::*;
use vstd::utf8::*;

verus! {

/// Number of bytes in the UTF-8 encoding of `c`.
pub open spec fn utf8_width(c: char) -> nat {
    let v = c as u32;
    if v < 0x80 {
        1
    } else if v < 0x800 {
        2
    } else if v < 0x10000 {
        3
    } else {
        4
    }
}

/// Number of UTF-16 code units of `c`.
pub open spec fn utf16_width(c: char) -> nat {
    if (c as u32) < 0x10000 {
        1
    } else {
        2
    }
}

/// Number of UTF-8 bytes of a character sequence.
pub open spec fn utf8_len(s: Seq<char>) -> nat
    decreases s.len(),
{
    if s.len() == 0 {
        0
    } else {
        utf8_len(s.drop_last()) + utf8_width(s.last())
    }
}

/// Number of UTF-16 code units of a character sequence.
pub open spec fn utf16_len(s: Seq<char>) -> nat
    decreases s.len(),
{
    if s.len() == 0 {
        0
    } else {
        utf16_len(s.drop_last()) + utf16_width(s.last())
    }
}

/// Byte offset of the character with index `i` (or of the end when `i == s.len()`).
pub open spec fn byte_offset(s: Seq<char>, i: int) -> nat {
    utf8_len(s.take(i))
}

/// `b` is a byte offset that falls between two characters of `s` (or at either end).
pub open spec fn is_boundary(s: Seq<char>, b: int) -> bool {
    exists|i: int| 0 <= i <= s.len() && #[trigger] byte_offset(s, i) == b
}

/// Index of the character that starts at byte offset `b`, for a boundary `b`.
pub open spec fn char_index_at(s: Seq<char>, b: int) -> int
    recommends
        is_boundary(s, b),
{
    choose|i: int| 0 <= i <= s.len() && #[trigger] byte_offset(s, i) == b
}

/// Largest number of leading characters whose UTF-16 length does not exceed `units`.
pub open spec fn utf16_fitting_prefix(s: Seq<char>, units: int) -> nat
    decreases s.len(),
{
    if utf16_len(s) <= units || s.len() == 0 {
        s.len()
    } else {
        utf16_fitting_prefix(s.drop_last(), units)
    }
}

/// The largest boundary of `s` that is at most `b`.
pub open spec fn boundary_at_or_before(s: Seq<char>, b: int) -> nat {
    byte_offset(s, last_char_start_at_or_before(s, b))
}

/// Index of the last character prefix whose byte length is at most `b`.
pub open spec fn last_char_start_at_or_before(s: Seq<char>, b: int) -> int
    decreases s.len(),
{
    if s.len() == 0 || utf8_len(s) <= b {
        s.len() as int
    } else {
        last_char_start_at_or_before(s.drop_last(), b)
    }
}

pub proof fn lemma_widths(c: char)
    ensures
        1 <= utf8_width(c) <= 4,
        1 <= utf16_width(c) <= 2,
{
}

pub proof fn lemma_utf8_len_concat(a: Seq<char>, b: Seq<char>)
    ensures
        utf8_len(a + b) == utf8_len(a) + utf8_len(b),
    decreases b.len(),
{
    if b.len() == 0 {
        assert(a + b =~= a);
    } else {
        assert((a + b).drop_last() =~= a + b.drop_last());
        lemma_utf8_len_concat(a, b.drop_last());
    }
}

pub proof fn lemma_utf16_len_concat(a: Seq<char>, b: Seq<char>)
    ensures
        utf16_len(a + b) == utf16_len(a) + utf16_len(b),
    decreases b.len(),
{
    if b.len() == 0 {
        assert(a + b =~= a);
    } else {
        assert((a + b).drop_last() =~= a + b.drop_last());
        lemma_utf16_len_concat(a, b.drop_last());
    }
}

pub proof fn lemma_utf8_len_single(c: char)
    ensures
        utf8_len(seq![c]) == utf8_width(c),
        utf16_len(seq![c]) == utf16_width(c),
{
    reveal_with_fuel(utf8_len, 2);
    reveal_with_fuel(utf16_len, 2);
    assert(seq![c].drop_last() =~= Seq::<char>::empty());
}

/// Byte length of a prefix grows by the width of the next character.
pub proof fn lemma_byte_offset_step(s: Seq<char>, i: int)
    requires
        0 <= i < s.len(),
    ensures
        byte_offset(s, i + 1) == byte_offset(s, i) + utf8_width(s[i]),
        utf16_len(s.take(i + 1)) == utf16_len(s.take(i)) + utf16_width(s[i]),
{
    assert(s.take(i + 1).drop_last() =~= s.take(i));
}

/// Byte offsets grow strictly with the character index.
pub proof fn lemma_byte_offset_mono(s: Seq<char>, i: int, j: int)
    requires
        0 <= i <= j <= s.len(),
    ensures
        byte_offset(s, i) + (j - i) <= byte_offset(s, j),
        utf16_len(s.take(i)) + (j - i) <= utf16_len(s.take(j)),
    decreases j - i,
{
    if i < j {
        lemma_byte_offset_mono(s, i, j - 1);
        lemma_byte_offset_step(s, j - 1);
        lemma_widths(s[j - 1]);
    }
}

pub proof fn lemma_byte_offset_injective(s: Seq<char>, i: int, j: int)
    requires
        0 <= i <= s.len(),
        0 <= j <= s.len(),
        byte_offset(s, i) == byte_offset(s, j),
    ensures
        i == j,
{
    if i < j {
        lemma_byte_offset_mono(s, i, j);
    } else if j < i {
        lemma_byte_offset_mono(s, j, i);
    }
}

pub proof fn lemma_byte_offset_ends(s: Seq<char>)
    ensures
        byte_offset(s, 0) == 0,
        byte_offset(s, s.len() as int) == utf8_len(s),
        utf16_len(s.take(s.len() as int)) == utf16_len(s),
        is_boundary(s, 0),
        is_boundary(s, utf8_len(s) as int),
{
    assert(s.take(0) =~= Seq::<char>::empty());
    assert(s.take(s.len() as int) =~= s);
    assert(byte_offset(s, 0) == 0);
    assert(byte_offset(s, s.len() as int) == utf8_len(s));
}

/// The character index recovered from a boundary offset is the one that produced it.
pub proof fn lemma_char_index_at(s: Seq<char>, i: int)
    requires
        0 <= i <= s.len(),
    ensures
        is_boundary(s, byte_offset(s, i) as int),
        char_index_at(s, byte_offset(s, i) as int) == i,
{
    let b = byte_offset(s, i) as int;
    assert(is_boundary(s, b));
    let k = char_index_at(s, b);
    lemma_byte_offset_injective(s, i, k);
}

proof fn lemma_encode_scalar_len(c: char)
    ensures
        encode_scalar(c as u32).len() == utf8_width(c),
{
    char_is_scalar(c);
}

pub proof fn lemma_utf8_len_first(s: Seq<char>)
    requires
        s.len() > 0,
    ensures
        utf8_len(s) == utf8_width(s[0]) + utf8_len(s.drop_first()),
{
    assert(s =~= seq![s[0]] + s.drop_first());
    lemma_utf8_len_concat(seq![s[0]], s.drop_first());
    lemma_utf8_len_single(s[0]);
}

pub proof fn lemma_encode_utf8_len(s: Seq<char>)
    ensures
        encode_utf8(s).len() == utf8_len(s),
    decreases s.len(),
{
    if s.len() > 0 {
        lemma_encode_utf8_len(s.drop_first());
        lemma_encode_scalar_len(s[0]);
        lemma_utf8_len_first(s);
    }
}

/// Byte length of a string slice.
pub fn str_len(text: &str) -> (n: usize)
    ensures
        n == utf8_len(text@),
{
    let bytes = text.as_bytes();
    proof {
        lemma_encode_utf8_len(text@);
    }
    bytes.len()
}

/// Number of UTF-8 bytes of one character.
pub fn char_utf8_width(c: char) -> (w: usize)
    ensures
        w == utf8_width(c),
{
    let v = c as u32;
    if v < 0x80 {
        1
    } else if v < 0x800 {
        2
    } else if v < 0x10000 {
        3
    } else {
        4
    }
}

/// Number of UTF-16 code units of one character.
pub fn char_utf16_width(c: char) -> (w: usize)
    ensures
        w == utf16_width(c),
{
    if (c as u32) < 0x10000 {
        1
    } else {
        2
    }
}

/// Collects the characters of `s`.
pub fn chars_of(s: &str) -> (v: Vec<char>)
    ensures
        v@ == s@,
{
    let mut v: Vec<char> = Vec::new();
    for c in it: s.chars()
        invariant
            v@ == it.seq().take(it.index()),
            it.seq() == s@,
    {
        v.push(c);
    }
    v
}

/// Appends one character to a string (`String::push`).
#[verifier::external_body]
pub(crate) fn push_char(s: &mut String, c: char)
    ensures
        final(s)@ == old(s)@.push(c),
{
    s.push(c);
}

/// Appends a string slice to a string (`String::push_str`).
#[verifier::external_body]
pub(crate) fn push_str(s: &mut String, t: &str)
    ensures
        final(s)@ == old(s)@ + t@,
{
    s.push_str(t);
}

/// A new string holding the characters `v[from..to]`.
pub fn string_from_chars(v: &Vec<char>, from: usize, to: usize) -> (s: String)
    requires
        from <= to <= v.len(),
    ensures
        s@ == v@.subrange(from as int, to as int),
{
    let mut s = String::new();
    let mut i = from;
    while i < to
        invariant
            from <= i <= to <= v.len(),
            s@ == v@.subrange(from as int, i as int),
        decreases to - i,
    {
        push_char(&mut s, v[i]);
        assert(v@.subrange(from as int, i + 1) =~= v@.subrange(from as int, i as int).push(v@[i as int]));
        i = i + 1;
    }
    s
}

/// A string has no more characters than bytes.
pub proof fn lemma_len_le_utf8_len(s: Seq<char>)
    ensures
        s.len() <= utf8_len(s),
    decreases s.len(),
{
    if s.len() > 0 {
        lemma_len_le_utf8_len(s.drop_last());
        lemma_widths(s.last());
    }
}

/// UTF-16 length is bounded by UTF-8 length.
pub proof fn lemma_utf16_bounded(s: Seq<char>)
    ensures
        utf16_len(s) <= utf8_len(s),
    decreases s.len(),
{
    if s.len() > 0 {
        lemma_utf16_bounded(s.drop_last());
    }
}

/// Unicode `White_Space` (the property behind `char::is_whitespace`).
pub open spec fn is_ws(c: char) -> bool {
    let v = c as u32;
    (0x09 <= v && v <= 0x0D) || v == 0x20 || v == 0x85 || v == 0xA0 || v == 0x1680 || (0x2000 <= v
        && v <= 0x200A) || v == 0x2028 || v == 0x2029 || v == 0x202F || v == 0x205F || v == 0x3000
}

/// `char::is_whitespace`.
pub fn is_whitespace(c: char) -> (b: bool)
    ensures
        b == is_ws(c),
{
    let v = c as u32;
    (0x09 <= v && v <= 0x0D) || v == 0x20 || v == 0x85 || v == 0xA0 || v == 0x1680 || (0x2000 <= v
        && v <= 0x200A) || v == 0x2028 || v == 0x2029 || v == 0x202F || v == 0x205F || v == 0x3000
}

/// Number of leading whitespace characters.
pub open spec fn leading_ws(s: Seq<char>) -> nat
    decreases s.len(),
{
    if s.len() > 0 && is_ws(s[0]) {
        1 + leading_ws(s.drop_first())
    } else {
        0
    }
}

/// Length of `s` without its trailing whitespace.
pub open spec fn trailing_ws_start(s: Seq<char>) -> nat
    decreases s.len(),
{
    if s.len() > 0 && is_ws(s.last()) {
        trailing_ws_start(s.drop_last())
    } else {
        s.len()
    }
}

/// `str::trim_start`.
pub open spec fn trim_start(s: Seq<char>) -> Seq<char> {
    s.skip(leading_ws(s) as int)
}

/// `str::trim_end`.
pub open spec fn trim_end(s: Seq<char>) -> Seq<char> {
    s.take(trailing_ws_start(s) as int)
}

/// `str::trim`.
pub open spec fn trim(s: Seq<char>) -> Seq<char> {
    trim_end(trim_start(s))
}

/// `s` is its own trim: it neither starts nor ends with whitespace.
#[verifier::opaque]
pub open spec fn is_trimmed(s: Seq<char>) -> bool {
    trim(s) == s
}

/// Trimming twice trims no more than trimming once.
pub proof fn lemma_trim_idempotent(s: Seq<char>)
    ensures
        trim(trim(s)) == trim(s),
        is_trimmed(trim(s)),
{
    reveal(is_trimmed);
    let u = trim_start(s);
    let t = trim(s);
    lemma_leading_ws(s);
    lemma_trailing_ws(u);
    if t.len() > 0 {
        assert(t[0] == u[0] && u[0] == s[leading_ws(s) as int]);
        assert(t.last() == u[trailing_ws_start(u) - 1]);
        assert(leading_ws(t) == 0);
        assert(trim_start(t) =~= t);
        assert(trailing_ws_start(t) == t.len());
        assert(trim_end(t) =~= t);
    } else {
        assert(trim(t) =~= t);
    }
}

pub proof fn lemma_leading_ws(s: Seq<char>)
    ensures
        leading_ws(s) <= s.len(),
        forall|i: int| 0 <= i < leading_ws(s) ==> is_ws(#[trigger] s[i]),
        leading_ws(s) < s.len() ==> !is_ws(s[leading_ws(s) as int]),
    decreases s.len(),
{
    if s.len() > 0 && is_ws(s[0]) {
        lemma_leading_ws(s.drop_first());
        assert forall|i: int| 0 <= i < leading_ws(s) implies is_ws(#[trigger] s[i]) by {
            if i > 0 {
                assert(s[i] == s.drop_first()[i - 1]);
            }
        }
    }
}

pub proof fn lemma_trailing_ws(s: Seq<char>)
    ensures
        trailing_ws_start(s) <= s.len(),
        forall|i: int| trailing_ws_start(s) <= i < s.len() ==> is_ws(#[trigger] s[i]),
        trailing_ws_start(s) > 0 ==> !is_ws(s[trailing_ws_start(s) - 1]),
    decreases s.len(),
{
    if s.len() > 0 && is_ws(s.last()) {
        lemma_trailing_ws(s.drop_last());
        assert forall|i: int| trailing_ws_start(s) <= i < s.len() implies is_ws(#[trigger] s[i]) by {
            if i < s.len() - 1 {
                assert(s[i] == s.drop_last()[i]);
            }
        }
    }
}

/// Position of the first non-whitespace character in `v[from..to]` (or `to`).
pub fn skip_ws(v: &Vec<char>, from: usize, to: usize) -> (r: usize)
    requires
        from <= to <= v.len(),
    ensures
        r == from + leading_ws(v@.subrange(from as int, to as int)),
        from <= r <= to,
{
    let ghost s = v@.subrange(from as int, to as int);
    let mut i = from;
    proof {
        lemma_leading_ws(s);
    }
    while i < to && is_whitespace(v[i])
        invariant
            from <= i <= to <= v.len(),
            s == v@.subrange(from as int, to as int),
            leading_ws(s) == (i - from) + leading_ws(v@.subrange(i as int, to as int)),
        decreases to - i,
    {
        assert(v@.subrange(i as int, to as int).drop_first() =~= v@.subrange(i + 1, to as int));
        i = i + 1;
    }
    proof {
        lemma_leading_ws(v@.subrange(i as int, to as int));
    }
    i
}

/// End of `v[from..to]` once trailing whitespace is removed.
pub fn trim_end_pos(v: &Vec<char>, from: usize, to: usize) -> (r: usize)
    requires
        from <= to <= v.len(),
    ensures
        r == from + trailing_ws_start(v@.subrange(from as int, to as int)),
        from <= r <= to,
{
    let ghost s = v@.subrange(from as int, to as int);
    let mut j = to;
    proof {
        lemma_trailing_ws(s);
    }
    while j > from && is_whitespace(v[j - 1])
        invariant
            from <= j <= to <= v.len(),
            s == v@.subrange(from as int, to as int),
            trailing_ws_start(s) == trailing_ws_start(v@.subrange(from as int, j as int)),
        decreases j,
    {
        assert(v@.subrange(from as int, j as int).drop_last() =~= v@.subrange(from as int, j - 1));
        j = j - 1;
    }
    proof {
        lemma_trailing_ws(v@.subrange(from as int, j as int));
    }
    j
}

/// Bounds of `trim(v[from..to])` inside `v`.
pub fn trim_bounds(v: &Vec<char>, from: usize, to: usize) -> (r: (usize, usize))
    requires
        from <= to <= v.len(),
    ensures
        from <= r.0 <= r.1 <= to,
        v@.subrange(r.0 as int, r.1 as int) == trim(v@.subrange(from as int, to as int)),
{
    let start = skip_ws(v, from, to);
    let end = trim_end_pos(v, start, to);
    proof {
        let s = v@.subrange(from as int, to as int);
        assert(trim_start(s) =~= v@.subrange(start as int, to as int));
        assert(trim_end(trim_start(s)) =~= v@.subrange(start as int, end as int));
    }
    (start, end)
}

/// `str::trim` into a new string.
pub fn trimmed(text: &str) -> (r: String)
    ensures
        r@ == trim(text@),
{
    let v = chars_of(text);
    let (a, b) = trim_bounds(&v, 0, v.len());
    assert(v@.subrange(0, v@.len() as int) =~= v@);
    string_from_chars(&v, a, b)
}

/// `s` begins with `p`.
pub open spec fn has_prefix(s: Seq<char>, p: Seq<char>) -> bool {
    p.len() <= s.len() && s.take(p.len() as int) == p
}

/// `v[at..]` begins with `p`.
pub fn starts_with_at(v: &Vec<char>, at: usize, p: &str) -> (b: bool)
    requires
        at <= v.len(),
    ensures
        b == has_prefix(v@.skip(at as int), p@),
{
    let pv = chars_of(p);
    if pv.len() > v.len() - at {
        return false;
    }
    let mut i: usize = 0;
    while i < pv.len()
        invariant
            at <= v.len(),
            pv@ == p@,
            pv.len() <= v.len() - at,
            0 <= i <= pv.len(),
            forall|k: int| 0 <= k < i ==> v@[at + k] == pv@[k],
        decreases pv.len() - i,
    {
        if v[at + i] != pv[i] {
            assert(v@.skip(at as int).take(pv@.len() as int)[i as int] != p@[i as int]);
            return false;
        }
        i = i + 1;
    }
    assert(v@.skip(at as int).take(pv@.len() as int) =~= p@);
    true
}

/// `s` contains `p` starting at index `i`.
pub open spec fn occurs_at(s: Seq<char>, p: Seq<char>, i: int) -> bool {
    0 <= i && i + p.len() <= s.len() && s.subrange(i, i + p.len()) == p
}

/// First index at or after `from` where `p` occurs in `s`, if any.
pub open spec fn find_from(s: Seq<char>, p: Seq<char>, from: int) -> Option<int>
    decreases s.len() + 1 - from,
{
    if from < 0 || from + p.len() > s.len() {
        None
    } else if occurs_at(s, p, from) {
        Some(from)
    } else {
        find_from(s, p, from + 1)
    }
}

pub proof fn lemma_find_from(s: Seq<char>, p: Seq<char>, from: int)
    requires
        0 <= from,
    ensures
        find_from(s, p, from) matches Some(i) ==> from <= i && occurs_at(s, p, i) && forall|j: int|
            from <= j < i ==> !occurs_at(s, p, j),
        find_from(s, p, from) is None ==> forall|j: int| from <= j ==> !occurs_at(s, p, j),
    decreases s.len() + 1 - from,
{
    if from + p.len() > s.len() {
    } else if occurs_at(s, p, from) {
    } else {
        lemma_find_from(s, p, from + 1);
    }
}

/// `find_from` on a suffix, as an index into the whole sequence.
pub proof fn lemma_find_shift(s: Seq<char>, p: Seq<char>, i: int, from: int)
    requires
        0 <= i <= from,
        i <= s.len(),
    ensures
        match find_from(s.skip(i), p, from - i) {
            Some(k) => find_from(s, p, from) == Some(k + i),
            None => find_from(s, p, from) is None,
        },
    decreases s.len() + 1 - from,
{
    let rest = s.skip(i);
    if from + p.len() > s.len() {
    } else {
        assert(occurs_at(rest, p, from - i) == occurs_at(s, p, from)) by {
            assert(rest.subrange(from - i, from - i + p.len()) =~= s.subrange(from, from + p.len()));
        }
        if !occurs_at(s, p, from) {
            lemma_find_shift(s, p, i, from + 1);
        }
    }
}

/// Slice-level `v[at..to].find(p)`: the first occurrence of `p` at or after
/// `at` that ends by `to`, as an index into `v`.
pub fn find_chars(v: &Vec<char>, p: &Vec<char>, at: usize, to: usize) -> (r: Option<usize>)
    requires
        at <= to <= v.len(),
    ensures
        r == (match find_from(v@.subrange(0, to as int), p@, at as int) {
            Some(i) => Some(i as usize),
            None => None::<usize>,
        }),
        r matches Some(k) ==> at <= k && k + p@.len() <= to,
{
    proof {
        lemma_find_from(v@.subrange(0, to as int), p@, at as int);
    }
    let ghost s = v@.subrange(0, to as int);
    let mut i = at;
    while p.len() <= to - i
        invariant
            at <= i <= to <= v.len(),
            s == v@.subrange(0, to as int),
            find_from(s, p@, at as int) == find_from(s, p@, i as int),
        decreases to - i,
    {
        let mut k: usize = 0;
        let mut same = true;
        while k < p.len()
            invariant
                i + p.len() <= to <= v.len(),
                0 <= k <= p.len(),
                same ==> forall|m: int| 0 <= m < k ==> v@[i + m] == p@[m],
                !same ==> exists|m: int| 0 <= m < p.len() && v@[i + m] != p@[m],
            decreases p.len() - k,
        {
            if v[i + k] != p[k] {
                same = false;
            }
            k = k + 1;
        }
        if same {
            assert(s.subrange(i as int, i + p@.len()) =~= p@);
            return Some(i);
        }
        proof {
            let m = choose|m: int| 0 <= m < p.len() && v@[i + m] != p@[m];
            assert(s.subrange(i as int, i + p@.len())[m] != p@[m]);
        }
        i = i + 1;
    }
    assert(find_from(s, p@, i as int) is None);
    None
}

/// Decimal digits of `n` (`u64::to_string`).
pub open spec fn decimal(n: nat) -> Seq<char>
    decreases n,
{
    if n < 10 {
        seq![digit_char(n)]
    } else {
        decimal(n / 10).push(digit_char(n % 10))
    }
}

/// The ASCII digit for `d < 10`.
pub open spec fn digit_char(d: nat) -> char {
    (('0' as u32) + d) as char
}

/// `n.to_string()` for an unsigned integer.
pub fn decimal_string(n: u64) -> (s: String)
    ensures
        s@ == decimal(n as nat),
    decreases n,
{
    let d = (n % 10) as u32;
    let c = char_from_digit(d);
    if n < 10 {
        let mut s = String::new();
        push_char(&mut s, c);
        assert(s@ =~= seq![digit_char(n as nat)]);
        s
    } else {
        let mut s = decimal_string(n / 10);
        push_char(&mut s, c);
        s
    }
}

/// The ASCII digit character for `d < 10`.
pub fn char_from_digit(d: u32) -> (c: char)
    requires
        d < 10,
    ensures
        c == digit_char(d as nat),
{
    if d == 0 { '0' }
    else if d == 1 { '1' }
    else if d == 2 { '2' }
    else if d == 3 { '3' }
    else if d == 4 { '4' }
    else if d == 5 { '5' }
    else if d == 6 { '6' }
    else if d == 7 { '7' }
    else if d == 8 { '8' }
    else { '9' }
}

/// `char::is_ascii_digit`.
pub open spec fn is_ascii_digit(c: char) -> bool {
    '0' <= c && c <= '9'
}

/// `char::is_ascii_alphanumeric`.
pub open spec fn is_ascii_alnum(c: char) -> bool {
    ('0' <= c && c <= '9') || ('a' <= c && c <= 'z') || ('A' <= c && c <= 'Z')
}

/// The lowercase ASCII form of `c` (other characters unchanged).
pub open spec fn ascii_lower(c: char) -> char {
    if 'A' <= c && c <= 'Z' {
        ((c as u32) + 32) as char
    } else {
        c
    }
}

/// `str::eq_ignore_ascii_case`.
pub open spec fn eq_ignore_ascii_case(a: Seq<char>, b: Seq<char>) -> bool {
    a.len() == b.len() && forall|i: int| 0 <= i < a.len() ==> ascii_lower(#[trigger] a[i]) == ascii_lower(b[i])
}

pub fn char_ascii_lower(c: char) -> (r: char)
    ensures
        r == ascii_lower(c),
{
    if 'A' <= c && c <= 'Z' {
        let b = (c as u8) + 32;
        b as char
    } else {
        c
    }
}

/// `a.eq_ignore_ascii_case(b)`.
pub fn eq_ignore_case(a: &Vec<char>, b: &str) -> (r: bool)
    ensures
        r == eq_ignore_ascii_case(a@, b@),
{
    let bv = chars_of(b);
    if a.len() != bv.len() {
        return false;
    }
    let mut i: usize = 0;
    while i < a.len()
        invariant
            bv@ == b@,
            a.len() == bv.len(),
            0 <= i <= a.len(),
            forall|k: int| 0 <= k < i ==> ascii_lower(#[trigger] a@[k]) == ascii_lower(bv@[k]),
        decreases a.len() - i,
    {
        if char_ascii_lower(a[i]) != char_ascii_lower(bv[i]) {
            return false;
        }
        i = i + 1;
    }
    true
}

/// The lowercase form of a string, as `str::to_lowercase` computes it.
pub uninterp spec fn lowercase(s: Seq<char>) -> Seq<char>;

/// `str::to_lowercase` (full Unicode lowercase mapping). Only its name is
/// stated; the mapping itself is Unicode data.
#[verifier::external_body]
pub(crate) fn to_lowercase(s: &str) -> (r: String)
    ensures
        r@ == lowercase(s@),
{
    s.to_lowercase()
}

/// The uppercase form of a character, as `char::to_uppercase` yields it.
pub uninterp spec fn uppercase(c: char) -> Seq<char>;

/// `char::to_uppercase` collected into a string.
#[verifier::external_body]
pub(crate) fn char_to_uppercase(c: char) -> (r: String)
    ensures
        r@ == uppercase(c),
{
    c.to_uppercase().collect()
}

/// The lines of `s[i..]` as character ranges of `s`, as `str::lines` splits
/// them: at `\n`, dropping a `\r` right before it; a final line needs no
/// terminator, and no empty line follows a final `\n`.
pub open spec fn line_ranges(s: Seq<char>, i: int) -> Seq<(int, int)>
    decreases s.len() - i,
{
    if i < 0 || i >= s.len() {
        Seq::empty()
    } else {
        match find_from(s, seq!['\n'], i) {
            None => seq![(i, s.len() as int)],
            Some(k) => {
                proof {
                    lemma_find_from(s, seq!['\n'], i);
                }
                let e = if k > i && s[k - 1] == '\r' { k - 1 } else { k };
                seq![(i, e)] + line_ranges(s, k + 1)
            },
        }
    }
}

/// `str::lines`.
pub open spec fn lines(s: Seq<char>) -> Seq<Seq<char>> {
    line_ranges(s, 0).map_values(|r: (int, int)| s.subrange(r.0, r.1))
}

pub proof fn lemma_line_ranges(s: Seq<char>, i: int)
    requires
        0 <= i,
    ensures
        forall|k: int|
            0 <= k < line_ranges(s, i).len() ==> i <= (#[trigger] line_ranges(s, i)[k]).0 <= line_ranges(
                s,
                i,
            )[k].1 <= s.len(),
    decreases s.len() - i,
{
    if 0 <= i < s.len() {
        lemma_find_from(s, seq!['\n'], i);
        match find_from(s, seq!['\n'], i) {
            None => {},
            Some(k) => {
                lemma_line_ranges(s, k + 1);
                let e = if k > i && s[k - 1] == '\r' { k - 1 } else { k };
                assert forall|m: int|
                    0 <= m < line_ranges(s, i).len() implies i <= (#[trigger] line_ranges(s, i)[m]).0
                    <= line_ranges(s, i)[m].1 <= s.len() by {
                    if m > 0 {
                        assert(line_ranges(s, i)[m] == line_ranges(s, k + 1)[m - 1]);
                    }
                }
            },
        }
    }
}

/// Character ranges of the lines of `v` (see `line_ranges`).
pub fn line_bounds(v: &Vec<char>) -> (r: Vec<(usize, usize)>)
    ensures
        r@.len() == line_ranges(v@, 0).len(),
        forall|k: int|
            0 <= k < r@.len() ==> (#[trigger] r@[k]).0 == line_ranges(v@, 0)[k].0 && r@[k].1
                == line_ranges(v@, 0)[k].1,
        forall|k: int| 0 <= k < r@.len() ==> (#[trigger] r@[k]).0 <= r@[k].1 <= v@.len(),
{
    let ghost s = v@;
    let newline = single_char_vec('\n');
    let n = v.len();
    let mut r: Vec<(usize, usize)> = Vec::new();
    let mut i: usize = 0;
    proof {
        lemma_line_ranges(s, 0);
        assert(s.subrange(0, n as int) =~= s);
    }
    while i < n
        invariant
            v@ == s,
            n == s.len(),
            newline@ == seq!['\n'],
            0 <= i <= n,
            line_ranges(s, 0) == ranges_view(r@) + line_ranges(s, i as int),
            forall|k: int| 0 <= k < r@.len() ==> (#[trigger] r@[k]).0 <= r@[k].1 <= n,
        decreases n - i,
    {
        let ghost before = ranges_view(r@);
        proof {
            lemma_find_from(s, seq!['\n'], i as int);
            assert(v@.subrange(0, n as int) =~= s);
        }
        match find_chars(v, &newline, i, n) {
            None => {
                r.push((i, n));
                proof {
                    assert(ranges_view(r@) =~= before.push((i as int, n as int)));
                    assert(line_ranges(s, n as int) =~= Seq::<(int, int)>::empty());
                    assert(line_ranges(s, i as int) =~= seq![(i as int, n as int)]);
                    assert(line_ranges(s, 0) =~= ranges_view(r@) + line_ranges(s, n as int));
                }
                i = n;
            },
            Some(k) => {
                let e = if k > i && v[k - 1] == '\r' { k - 1 } else { k };
                r.push((i, e));
                proof {
                    assert(ranges_view(r@) =~= before.push((i as int, e as int)));
                    assert(line_ranges(s, i as int) =~= seq![(i as int, e as int)] + line_ranges(s, k + 1));
                    assert(line_ranges(s, 0) =~= ranges_view(r@) + line_ranges(s, k + 1));
                }
                i = k + 1;
            },
        }
    }
    proof {
        assert(line_ranges(s, i as int) =~= Seq::<(int, int)>::empty());
        assert(ranges_view(r@) =~= line_ranges(s, 0));
    }
    r
}

/// Ranges with integer bounds.
pub open spec fn ranges_view(r: Seq<(usize, usize)>) -> Seq<(int, int)> {
    r.map_values(|p: (usize, usize)| (p.0 as int, p.1 as int))
}

/// A one-character pattern.
pub fn single_char_vec(c: char) -> (v: Vec<char>)
    ensures
        v@ == seq![c],
{
    let mut v = Vec::new();
    v.push(c);
    assert(v@ =~= seq![c]);
    v
}

/// Index of the first whitespace character at or after `i` (or `s.len()`).
pub open spec fn word_end(s: Seq<char>, i: int) -> int
    decreases s.len() - i,
{
    if i < 0 || i >= s.len() || is_ws(s[i]) {
        i
    } else {
        word_end(s, i + 1)
    }
}

/// Index of the first non-whitespace character at or after `i` (or `s.len()`).
pub open spec fn word_start(s: Seq<char>, i: int) -> int
    decreases s.len() - i,
{
    if i < 0 || i >= s.len() || !is_ws(s[i]) {
        i
    } else {
        word_start(s, i + 1)
    }
}

pub proof fn lemma_word_bounds(s: Seq<char>, i: int)
    requires
        0 <= i <= s.len(),
    ensures
        i <= word_start(s, i) <= s.len(),
        i <= word_end(s, i) <= s.len(),
        word_start(s, i) < s.len() ==> !is_ws(s[word_start(s, i)]),
        word_end(s, i) < s.len() ==> is_ws(s[word_end(s, i)]),
        forall|k: int| i <= k < word_start(s, i) ==> is_ws(s[k]),
        forall|k: int| i <= k < word_end(s, i) ==> !is_ws(s[k]),
    decreases s.len() - i,
{
    if i < s.len() {
        lemma_word_bounds(s, i + 1);
    }
}

/// The whitespace-separated words of `s[i..]`, as character ranges
/// (`str::split_whitespace`).
pub open spec fn word_ranges(s: Seq<char>, i: int) -> Seq<(int, int)>
    decreases s.len() - i,
{
    if i < 0 || i > s.len() {
        Seq::empty()
    } else {
        proof {
            lemma_word_bounds(s, i);
        }
        let a = word_start(s, i);
        if a >= s.len() {
            Seq::empty()
        } else {
            proof {
                lemma_word_bounds(s, a);
            }
            let b = word_end(s, a);
            seq![(a, b)] + word_ranges(s, b)
        }
    }
}

/// `str::split_whitespace`.
pub open spec fn words(s: Seq<char>) -> Seq<Seq<char>> {
    word_ranges(s, 0).map_values(|r: (int, int)| s.subrange(r.0, r.1))
}

/// The first word of `v[from..]` at or after `from`, as a character range.
pub fn first_word(v: &Vec<char>, from: usize) -> (r: Option<(usize, usize)>)
    requires
        from <= v.len(),
    ensures
        match r {
            Some((a, b)) => word_ranges(v@, from as int).len() > 0 && word_ranges(v@, from as int)[0]
                == (a as int, b as int) && a < b <= v.len(),
            None => word_ranges(v@, from as int).len() == 0,
        },
{
    let a = skip_word_gap(v, from);
    if a >= v.len() {
        return None;
    }
    let b = word_end_at(v, a);
    proof {
        lemma_word_bounds(v@, from as int);
        lemma_word_bounds(v@, a as int);
        assert(word_ranges(v@, from as int) == seq![(a as int, b as int)] + word_ranges(v@, b as int));
    }
    Some((a, b))
}

/// `word_start` for a vector.
pub fn skip_word_gap(v: &Vec<char>, from: usize) -> (r: usize)
    requires
        from <= v.len(),
    ensures
        r == word_start(v@, from as int),
        from <= r <= v.len(),
{
    let mut i = from;
    while i < v.len() && is_whitespace(v[i])
        invariant
            from <= i <= v.len(),
            word_start(v@, from as int) == word_start(v@, i as int),
        decreases v.len() - i,
    {
        i = i + 1;
    }
    i
}

/// `word_end` for a vector.
pub fn word_end_at(v: &Vec<char>, from: usize) -> (r: usize)
    requires
        from <= v.len(),
    ensures
        r == word_end(v@, from as int),
        from <= r <= v.len(),
{
    let mut i = from;
    while i < v.len() && !is_whitespace(v[i])
        invariant
            from <= i <= v.len(),
            word_end(v@, from as int) == word_end(v@, i as int),
        decreases v.len() - i,
    {
        i = i + 1;
    }
    i
}


/// Number of leading copies of `c` in `s`.
pub open spec fn leading_run(s: Seq<char>, c: char) -> nat
    decreases s.len(),
{
    if s.len() > 0 && s[0] == c {
        1 + leading_run(s.drop_first(), c)
    } else {
        0
    }
}

/// Length of `s` once trailing copies of `c` are removed.
pub open spec fn trailing_run_start(s: Seq<char>, c: char) -> nat
    decreases s.len(),
{
    if s.len() > 0 && s.last() == c {
        trailing_run_start(s.drop_last(), c)
    } else {
        s.len()
    }
}

pub proof fn lemma_leading_run(s: Seq<char>, c: char)
    ensures
        leading_run(s, c) <= s.len(),
        forall|i: int| 0 <= i < leading_run(s, c) ==> #[trigger] s[i] == c,
        leading_run(s, c) < s.len() ==> s[leading_run(s, c) as int] != c,
    decreases s.len(),
{
    if s.len() > 0 && s[0] == c {
        lemma_leading_run(s.drop_first(), c);
        assert forall|i: int| 0 <= i < leading_run(s, c) implies #[trigger] s[i] == c by {
            if i > 0 {
                assert(s[i] == s.drop_first()[i - 1]);
            }
        }
    }
}

pub proof fn lemma_trailing_run(s: Seq<char>, c: char)
    ensures
        trailing_run_start(s, c) <= s.len(),
        forall|i: int| trailing_run_start(s, c) <= i < s.len() ==> #[trigger] s[i] == c,
        trailing_run_start(s, c) > 0 ==> s[trailing_run_start(s, c) - 1] != c,
    decreases s.len(),
{
    if s.len() > 0 && s.last() == c {
        lemma_trailing_run(s.drop_last(), c);
        assert forall|i: int| trailing_run_start(s, c) <= i < s.len() implies #[trigger] s[i] == c by {
            if i < s.len() - 1 {
                assert(s[i] == s.drop_last()[i]);
            }
        }
    }
}

/// End of the run of `c` that starts `v[from..to]`.
pub fn skip_run(v: &Vec<char>, from: usize, to: usize, c: char) -> (r: usize)
    requires
        from <= to <= v.len(),
    ensures
        r == from + leading_run(v@.subrange(from as int, to as int), c),
        from <= r <= to,
{
    let ghost s = v@.subrange(from as int, to as int);
    let mut i = from;
    proof {
        lemma_leading_run(s, c);
    }
    while i < to && v[i] == c
        invariant
            from <= i <= to <= v.len(),
            s == v@.subrange(from as int, to as int),
            leading_run(s, c) == (i - from) + leading_run(v@.subrange(i as int, to as int), c),
        decreases to - i,
    {
        assert(v@.subrange(i as int, to as int).drop_first() =~= v@.subrange(i + 1, to as int));
        i = i + 1;
    }
    proof {
        lemma_leading_run(v@.subrange(i as int, to as int), c);
    }
    i
}

/// Start of the run of `c` that ends `v[from..to]`.
pub fn trim_run_end(v: &Vec<char>, from: usize, to: usize, c: char) -> (r: usize)
    requires
        from <= to <= v.len(),
    ensures
        r == from + trailing_run_start(v@.subrange(from as int, to as int), c),
        from <= r <= to,
{
    let ghost s = v@.subrange(from as int, to as int);
    let mut j = to;
    proof {
        lemma_trailing_run(s, c);
    }
    while j > from && v[j - 1] == c
        invariant
            from <= j <= to <= v.len(),
            s == v@.subrange(from as int, to as int),
            trailing_run_start(s, c) == trailing_run_start(v@.subrange(from as int, j as int), c),
        decreases j,
    {
        assert(v@.subrange(from as int, j as int).drop_last() =~= v@.subrange(from as int, j - 1));
        j = j - 1;
    }
    proof {
        lemma_trailing_run(v@.subrange(from as int, j as int), c);
    }
    j
}

/// A new vector holding `v[from..to]`.
pub fn sub_vec(v: &Vec<char>, from: usize, to: usize) -> (r: Vec<char>)
    requires
        from <= to <= v.len(),
    ensures
        r@ == v@.subrange(from as int, to as int),
{
    let mut r: Vec<char> = Vec::new();
    let mut i = from;
    while i < to
        invariant
            from <= i <= to <= v.len(),
            r@ == v@.subrange(from as int, i as int),
        decreases to - i,
    {
        r.push(v[i]);
        assert(v@.subrange(from as int, i + 1) =~= v@.subrange(from as int, i as int).push(v@[i as int]));
        i = i + 1;
    }
    r
}

/// The views of a vector of character vectors.
pub open spec fn chars_view(v: Seq<Vec<char>>) -> Seq<Seq<char>> {
    v.map_values(|x: Vec<char>| x@)
}

/// The lines of `text` (`str::lines`), each as a character vector.
pub fn text_lines(text: &Vec<char>) -> (r: Vec<Vec<char>>)
    ensures
        chars_view(r@) == lines(text@),
{
    let bounds = line_bounds(text);
    let mut r: Vec<Vec<char>> = Vec::new();
    let mut k: usize = 0;
    while k < bounds.len()
        invariant
            0 <= k <= bounds.len(),
            bounds@.len() == line_ranges(text@, 0).len(),
            forall|m: int|
                0 <= m < bounds@.len() ==> (#[trigger] bounds@[m]).0 == line_ranges(text@, 0)[m].0
                    && bounds@[m].1 == line_ranges(text@, 0)[m].1,
            forall|m: int| 0 <= m < bounds@.len() ==> (#[trigger] bounds@[m]).0 <= bounds@[m].1 <= text@.len(),
            chars_view(r@) == lines(text@).take(k as int),
        decreases bounds.len() - k,
    {
        let (a, b) = bounds[k];
        let line = sub_vec(text, a, b);
        let ghost old_r = r@;
        r.push(line);
        assert(lines(text@)[k as int] == text@.subrange(a as int, b as int));
        assert(chars_view(r@) =~= chars_view(old_r).push(line@));
        assert(lines(text@).take(k + 1) =~= lines(text@).take(k as int).push(lines(text@)[k as int]));
        k = k + 1;
    }
    assert(lines(text@).take(k as int) =~= lines(text@));
    r
}


/// `a == b` on string slices.
pub fn str_eq(a: &str, b: &str) -> (r: bool)
    ensures
        r == (a@ == b@),
{
    let av = chars_of(a);
    let bv = chars_of(b);
    if av.len() != bv.len() {
        return false;
    }
    let mut i: usize = 0;
    while i < av.len()
        invariant
            av@ == a@,
            bv@ == b@,
            av.len() == bv.len(),
            0 <= i <= av.len(),
            forall|k: int| 0 <= k < i ==> av@[k] == bv@[k],
        decreases av.len() - i,
    {
        if av[i] != bv[i] {
            return false;
        }
        i = i + 1;
    }
    assert(av@ =~= bv@);
    true
}

/// The view of an optional string.
pub open spec fn opt_view(o: Option<String>) -> Option<Seq<char>> {
    match o {
        Some(s) => Some(s@),
        None => None,
    }
}

/// A copy of an optional string.
pub fn clone_opt(o: &Option<String>) -> (r: Option<String>)
    ensures
        opt_view(r) == opt_view(*o),
{
    match o {
        Some(s) => Some(s.clone()),
        None => None,
    }
}

} // verus!
