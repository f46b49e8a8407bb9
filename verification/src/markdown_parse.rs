//! Turning markdown block text into documents: inline styles, list items,
//! code fences and tables.
use vstd::prelude::*;
use crate::markdown::{InlineHighlight, InlineStyle, InlineText, InlineTextView};
use crate::text::{
    chars_of, find_chars, find_from, has_prefix, lemma_find_from, lemma_utf8_len_concat,
    lemma_find_shift, push_char, str_len, utf8_len,
};

verus! {

/// One step of inline parsing at character `i` of `s`: the index where the
/// next step starts, the text the step emits, and the style that the emitted
/// text carries, if any.
pub struct InlineStep {
    pub next: int,
    pub emitted: Seq<char>,
    pub style: Option<InlineStyle>,
}

/// The opening marker at the start of `rest`: its length, its text and the
/// style it introduces.
pub open spec fn opening_marker(rest: Seq<char>) -> Option<(int, Seq<char>, InlineStyle)> {
    if has_prefix(rest, seq!['*', '*']) || has_prefix(rest, seq!['_', '_']) {
        Some((2, rest.take(2), InlineStyle::Strong))
    } else if has_prefix(rest, seq!['~', '~']) {
        Some((2, rest.take(2), InlineStyle::Strikethrough))
    } else if has_prefix(rest, seq!['`']) {
        Some((1, seq!['`'], InlineStyle::Code))
    } else if has_prefix(rest, seq!['*']) || has_prefix(rest, seq!['_']) {
        Some((1, rest.take(1), InlineStyle::Emphasis))
    } else {
        None
    }
}

/// A link at the start of `rest`: the index of its `](` and of its `)`.
pub open spec fn link_parts(rest: Seq<char>) -> Option<(int, int)> {
    if rest.len() > 0 && rest[0] == '[' {
        match find_from(rest, seq![']', '('], 0) {
            Some(cb) => match find_from(rest, seq![')'], cb + 2) {
                Some(cp) => Some((cb, cp)),
                None => None,
            },
            None => None,
        }
    } else {
        None
    }
}

/// A closed marker span at the start of `rest`: the marker length, the index
/// of the closing marker and the style.
pub open spec fn marker_parts(rest: Seq<char>) -> Option<(int, int, InlineStyle)> {
    match opening_marker(rest) {
        Some((len, marker, style)) => match find_from(rest, marker, len) {
            Some(end) => Some((len, end, style)),
            None => None,
        },
        None => None,
    }
}

/// The inline grammar, one step: a backslash escapes the next character;
/// `[label](target)` becomes a link showing `label`; `**`/`__`, `~~`, `` ` ``
/// and `*`/`_` enclose strong, struck, code and emphasized text up to the
/// next identical marker; anything else is copied as is.
pub open spec fn inline_step(s: Seq<char>, i: int) -> InlineStep {
    let rest = s.skip(i);
    if rest.len() >= 2 && rest[0] == '\\' {
        InlineStep { next: i + 2, emitted: seq![rest[1]], style: None }
    } else if let Some((cb, cp)) = link_parts(rest) {
        InlineStep { next: i + cp + 1, emitted: rest.subrange(1, cb), style: Some(InlineStyle::Link) }
    } else if let Some((len, end, style)) = marker_parts(rest) {
        InlineStep { next: i + end + len, emitted: rest.subrange(len, end), style: Some(style) }
    } else {
        InlineStep { next: i + 1, emitted: seq![rest[0]], style: None }
    }
}

pub proof fn lemma_inline_step(s: Seq<char>, i: int)
    requires
        0 <= i < s.len(),
    ensures
        i < inline_step(s, i).next <= s.len(),
        exists|a: int, b: int|
            i <= a <= b <= inline_step(s, i).next && #[trigger] s.subrange(a, b) == inline_step(
                s,
                i,
            ).emitted,
{
    let rest = s.skip(i);
    let st = inline_step(s, i);
    lemma_find_from(rest, seq![']', '('], 0);
    if let Some(cb) = find_from(rest, seq![']', '('], 0) {
        lemma_find_from(rest, seq![')'], cb + 2);
    }
    if let Some((len, marker, style)) = opening_marker(rest) {
        lemma_find_from(rest, marker, len);
    }
    if rest.len() >= 2 && rest[0] == '\\' {
        assert(s.subrange(i + 1, i + 2) =~= st.emitted);
    } else if let Some((cb, cp)) = link_parts(rest) {
        assert(s.subrange(i + 1, i + cb) =~= st.emitted);
    } else if let Some((len, end, style)) = marker_parts(rest) {
        assert(s.subrange(i + len, i + end) =~= st.emitted);
    } else {
        assert(s.subrange(i, i + 1) =~= st.emitted);
    }
}

/// Inline parsing of `s[i..]`, appending to `out`.
pub open spec fn parse_inline_from(s: Seq<char>, i: int, out: InlineTextView) -> InlineTextView
    decreases s.len() - i,
{
    if i < 0 || i >= s.len() {
        out
    } else {
        proof {
            lemma_inline_step(s, i);
        }
        let st = inline_step(s, i);
        let start = utf8_len(out.text);
        let text = out.text + st.emitted;
        let highlights = match st.style {
            Some(style) => out.highlights.push(
                InlineHighlight { range: (start as usize)..(utf8_len(text) as usize), style: style },
            ),
            None => out.highlights,
        };
        parse_inline_from(s, st.next, InlineTextView { text: text, highlights: highlights })
    }
}

/// The inline text that `s` parses to.
pub open spec fn parse_inline_view(s: Seq<char>) -> InlineTextView {
    parse_inline_from(s, 0, InlineTextView { text: Seq::empty(), highlights: Seq::empty() })
}

/// A character that inline markup starts with: an escape, a link bracket or
/// a style marker.
pub open spec fn is_markup_char(c: char) -> bool {
    c == '\\' || c == '[' || c == '*' || c == '_' || c == '~' || c == '`'
}

proof fn lemma_plain_inline_from(s: Seq<char>, i: int)
    requires
        0 <= i <= s.len(),
        forall|k: int| 0 <= k < s.len() ==> !is_markup_char(#[trigger] s[k]),
    ensures
        parse_inline_from(s, i, InlineTextView { text: s.take(i), highlights: Seq::empty() }) == (InlineTextView {
            text: s,
            highlights: Seq::empty(),
        }),
    decreases s.len() - i,
{
    if i >= s.len() {
        assert(s.take(i) =~= s);
    } else {
        let rest = s.skip(i);
        assert(rest[0] == s[i]);
        assert(!is_markup_char(rest[0]));
        assert(!has_prefix(rest, seq!['*', '*']) && !has_prefix(rest, seq!['_', '_']) && !has_prefix(rest, seq!['~', '~'])
            && !has_prefix(rest, seq!['`']) && !has_prefix(rest, seq!['*']) && !has_prefix(rest, seq!['_'])) by {
            if rest.len() >= 1 {
                assert(rest.take(1)[0] == rest[0]);
            }
            if rest.len() >= 2 {
                assert(rest.take(2)[0] == rest[0]);
            }
        }
        assert(inline_step(s, i) == InlineStep { next: i + 1, emitted: seq![s[i]], style: None });
        assert(s.take(i) + seq![s[i]] =~= s.take(i + 1));
        lemma_plain_inline_from(s, i + 1);
    }
}

/// Text without markup characters parses to itself, with no styles.
pub proof fn lemma_plain_inline(s: Seq<char>)
    requires
        forall|k: int| 0 <= k < s.len() ==> !is_markup_char(#[trigger] s[k]),
    ensures
        parse_inline_view(s) == (InlineTextView { text: s, highlights: Seq::empty() }),
{
    assert(s.take(0) =~= Seq::<char>::empty());
    lemma_plain_inline_from(s, 0);
}

/// The style markers of inline markdown and the style each encloses.
pub open spec fn style_marker(m: Seq<char>, style: InlineStyle) -> bool {
    ||| (m == seq!['*', '*'] || m == seq!['_', '_']) && style == InlineStyle::Strong
    ||| m == seq!['~', '~'] && style == InlineStyle::Strikethrough
    ||| m == seq!['`'] && style == InlineStyle::Code
    ||| (m == seq!['*'] || m == seq!['_']) && style == InlineStyle::Emphasis
}

/// Plain text enclosed in a style marker (`**x**`, `__x__`, `~~x~~`, `` `x` ``,
/// `*x*` or `_x_`) parses to the text alone, with one highlight of that
/// style covering all of it.
pub proof fn lemma_marked_inline(m: Seq<char>, style: InlineStyle, x: Seq<char>)
    requires
        style_marker(m, style),
        x.len() > 0,
        forall|k: int| 0 <= k < x.len() ==> !is_markup_char(#[trigger] x[k]),
    ensures
        parse_inline_view(m + x + m) == (InlineTextView {
            text: x,
            highlights: seq![InlineHighlight { range: 0..(utf8_len(x) as usize), style: style }],
        }),
{
    let s = m + x + m;
    let ml = m.len() as int;
    let e = ml + x.len();
    assert(s.skip(0) =~= s);
    assert(s[0] == m[0]);
    assert(forall|k: int| 0 <= k < x.len() ==> s[ml + k] == x[k]);
    assert(s[ml] == x[0]);
    assert(s.subrange(e, e + ml) =~= m);
    // which marker opens the text
    assert(opening_marker(s) == Some((ml, m, style))) by {
        assert(s.take(1) =~= seq![s[0]]);
        assert(s.take(2) =~= seq![s[0], s[1]]);
        if ml == 2 {
            assert(s.take(2) =~= m);
        } else {
            assert(s.take(1) =~= m);
        }
    }
    assert(!(s.len() >= 2 && s[0] == '\\'));
    assert(link_parts(s) is None);
    // where the closing marker is
    lemma_find_from(s, m, ml);
    assert(crate::text::occurs_at(s, m, e));
    assert(find_from(s, m, ml) == Some(e)) by {
        match find_from(s, m, ml) {
            Some(i) => {
                if i < e {
                    assert(s.subrange(i, i + ml)[0] == s[i]);
                    assert(s[i] == x[i - ml]);
                }
            },
            None => {},
        }
    }
    assert(marker_parts(s) == Some((ml, e, style)));
    assert(s.subrange(ml, e) =~= x);
    let st = inline_step(s, 0);
    assert(st == InlineStep { next: e + ml, emitted: x, style: Some(style) });
    assert(Seq::<char>::empty() + x =~= x);
    assert(utf8_len(Seq::<char>::empty()) == 0);
    let h = InlineHighlight { range: 0..(utf8_len(x) as usize), style: style };
    assert(Seq::<InlineHighlight>::empty().push(h) =~= seq![h]);
    let out = InlineTextView { text: x, highlights: seq![h] };
    assert(s.len() == e + ml);
    assert(parse_inline_from(s, e + ml, out) == out);
    assert(parse_inline_from(s, 0, InlineTextView { text: Seq::empty(), highlights: Seq::empty() })
        == parse_inline_from(s, e + ml, out));
}

/// The first occurrence of `p` at or after `from` is at `e` when it occurs
/// there and its first character occurs nowhere in `s[from..e]`.
proof fn lemma_find_first(s: Seq<char>, p: Seq<char>, from: int, e: int)
    requires
        0 <= from <= e,
        p.len() > 0,
        crate::text::occurs_at(s, p, e),
        forall|k: int| from <= k < e ==> #[trigger] s[k] != p[0],
    ensures
        find_from(s, p, from) == Some(e),
{
    lemma_find_from(s, p, from);
    match find_from(s, p, from) {
        Some(i) => {
            if i < e {
                assert(s.subrange(i, i + p.len())[0] == s[i]);
            }
        },
        None => {},
    }
}

/// A link `[x](t)` with plain label `x` (no `]`) and a target `t` without
/// `)` parses to the label alone, with one link highlight covering it.
pub proof fn lemma_link_inline(x: Seq<char>, t: Seq<char>)
    requires
        forall|k: int| 0 <= k < x.len() ==> !is_markup_char(#[trigger] x[k]) && x[k] != ']',
        forall|k: int| 0 <= k < t.len() ==> #[trigger] t[k] != ')',
    ensures
        parse_inline_view(seq!['['] + x + seq![']', '('] + t + seq![')']) == (InlineTextView {
            text: x,
            highlights: seq![InlineHighlight { range: 0..(utf8_len(x) as usize), style: InlineStyle::Link }],
        }),
{
    let s = seq!['['] + x + seq![']', '('] + t + seq![')'];
    let cb: int = 1 + x.len() as int;
    let cp: int = cb + 2 + t.len();
    assert(s.len() == cp + 1);
    assert(s.skip(0) =~= s);
    assert(s[0] == '[');
    assert(s[cb] == ']' && s[cb + 1] == '(' && s[cp] == ')');
    assert(s.subrange(cb, cb + 2) =~= seq![']', '(']);
    assert(s.subrange(cp, cp + 1) =~= seq![')']);
    assert forall|k: int| 0 <= k < cb implies #[trigger] s[k] != seq![']', '('][0] by {
        if k > 0 {
            assert(s[k] == x[k - 1]);
        }
    }
    lemma_find_first(s, seq![']', '('], 0, cb);
    assert forall|k: int| cb + 2 <= k < cp implies #[trigger] s[k] != seq![')'][0] by {
        assert(s[k] == t[k - cb - 2]);
    }
    lemma_find_first(s, seq![')'], cb + 2, cp);
    assert(link_parts(s) == Some((cb, cp)));
    assert(!(s.len() >= 2 && s[0] == '\\'));
    assert(s.subrange(1, cb) =~= x);
    let st = inline_step(s, 0);
    assert(st == InlineStep { next: cp + 1, emitted: x, style: Some(InlineStyle::Link) });
    assert(Seq::<char>::empty() + x =~= x);
    assert(utf8_len(Seq::<char>::empty()) == 0);
    let h = InlineHighlight { range: 0..(utf8_len(x) as usize), style: InlineStyle::Link };
    assert(Seq::<InlineHighlight>::empty().push(h) =~= seq![h]);
    let out = InlineTextView { text: x, highlights: seq![h] };
    assert(parse_inline_from(s, cp + 1, out) == out);
    assert(parse_inline_from(s, 0, InlineTextView { text: Seq::empty(), highlights: Seq::empty() })
        == parse_inline_from(s, cp + 1, out));
}

/// Emitted text never holds more bytes than the input it came from.
proof fn lemma_subrange_utf8_le(s: Seq<char>, a: int, b: int, lo: int, hi: int)
    requires
        0 <= lo <= a <= b <= hi <= s.len(),
    ensures
        utf8_len(s.subrange(a, b)) <= utf8_len(s.subrange(lo, hi)),
{
    let whole = s.subrange(lo, hi);
    assert(whole =~= s.subrange(lo, a) + s.subrange(a, b) + s.subrange(b, hi));
    lemma_utf8_len_concat(s.subrange(lo, a) + s.subrange(a, b), s.subrange(b, hi));
    lemma_utf8_len_concat(s.subrange(lo, a), s.subrange(a, b));
}

/// Appends `v[from..to]` to `out`.
pub(crate) fn push_chars(out: &mut String, v: &Vec<char>, from: usize, to: usize)
    requires
        from <= to <= v.len(),
    ensures
        final(out)@ == old(out)@ + v@.subrange(from as int, to as int),
{
    let mut k = from;
    while k < to
        invariant
            from <= k <= to <= v.len(),
            out@ == old(out)@ + v@.subrange(from as int, k as int),
        decreases to - k,
    {
        push_char(out, v[k]);
        assert(v@.subrange(from as int, k + 1) =~= v@.subrange(from as int, k as int).push(v@[k as int]));
        k = k + 1;
    }
}

/// The marker patterns that inline parsing looks for.
struct Patterns {
    link_close: Vec<char>,
    paren: Vec<char>,
    strong_star: Vec<char>,
    strong_under: Vec<char>,
    strike: Vec<char>,
    tick: Vec<char>,
    star: Vec<char>,
    under: Vec<char>,
}

impl Patterns {
    spec fn wf(&self) -> bool {
        &&& self.link_close@ == seq![']', '(']
        &&& self.paren@ == seq![')']
        &&& self.strong_star@ == seq!['*', '*']
        &&& self.strong_under@ == seq!['_', '_']
        &&& self.strike@ == seq!['~', '~']
        &&& self.tick@ == seq!['`']
        &&& self.star@ == seq!['*']
        &&& self.under@ == seq!['_']
    }

    fn new() -> (p: Patterns)
        ensures
            p.wf(),
    {
        Patterns {
            link_close: pattern2(']', '('),
            paren: pattern1(')'),
            strong_star: pattern2('*', '*'),
            strong_under: pattern2('_', '_'),
            strike: pattern2('~', '~'),
            tick: pattern1('`'),
            star: pattern1('*'),
            under: pattern1('_'),
        }
    }
}

fn pattern1(a: char) -> (v: Vec<char>)
    ensures
        v@ == seq![a],
{
    let mut v = Vec::new();
    v.push(a);
    assert(v@ =~= seq![a]);
    v
}

fn pattern2(a: char, b: char) -> (v: Vec<char>)
    ensures
        v@ == seq![a, b],
{
    let mut v = Vec::new();
    v.push(a);
    v.push(b);
    assert(v@ =~= seq![a, b]);
    v
}

/// The link that starts at `i`, as absolute indices of its `](` and `)`.
fn find_link(s: &Vec<char>, i: usize, pats: &Patterns) -> (r: Option<(usize, usize)>)
    requires
        pats.wf(),
        i < s.len(),
    ensures
        r is None <==> link_parts(s@.skip(i as int)) is None,
        r matches Some((cb, cp)) ==> link_parts(s@.skip(i as int)) == Some((cb - i, cp - i)),
        r matches Some((cb, cp)) ==> i < cb && cb + 2 <= cp < s.len(),
{
    let ghost sv = s@;
    let ghost rest = sv.skip(i as int);
    let n = s.len();
    proof {
        assert(sv.subrange(0, n as int) =~= sv);
        lemma_find_shift(sv, seq![']', '('], i as int, i as int);
        lemma_find_from(rest, seq![']', '('], 0);
        if let Some(cb) = find_from(rest, seq![']', '('], 0) {
            lemma_find_shift(sv, seq![')'], i as int, i + cb + 2);
            lemma_find_from(rest, seq![')'], cb + 2);
        }
    }
    if s[i] != '[' {
        return None;
    }
    match find_chars(s, &pats.link_close, i, n) {
        Some(cb) => match find_chars(s, &pats.paren, cb + 2, n) {
            Some(cp) => {
                proof {
                    if cb == i {
                        assert(rest.subrange(0, 2)[0] == ']');
                    }
                }
                Some((cb, cp))
            },
            None => None,
        },
        None => None,
    }
}

/// The marker span that starts at `i`: marker length, absolute index of the
/// closing marker, and style.
fn find_marker(s: &Vec<char>, i: usize, pats: &Patterns) -> (r: Option<(usize, usize, InlineStyle)>)
    requires
        pats.wf(),
        i < s.len(),
    ensures
        r is None <==> marker_parts(s@.skip(i as int)) is None,
        r matches Some((len, end, style)) ==> marker_parts(s@.skip(i as int)) == Some((len as int, end - i, style)),
        r matches Some((len, end, style)) ==> i + len <= end && end + len <= s.len(),
{
    let ghost sv = s@;
    let ghost rest = sv.skip(i as int);
    let n = s.len();
    let marker = if starts_with_pattern(s, i, &pats.strong_star) {
        Some((2usize, &pats.strong_star, InlineStyle::Strong))
    } else if starts_with_pattern(s, i, &pats.strong_under) {
        Some((2usize, &pats.strong_under, InlineStyle::Strong))
    } else if starts_with_pattern(s, i, &pats.strike) {
        Some((2usize, &pats.strike, InlineStyle::Strikethrough))
    } else if starts_with_pattern(s, i, &pats.tick) {
        Some((1usize, &pats.tick, InlineStyle::Code))
    } else if starts_with_pattern(s, i, &pats.star) {
        Some((1usize, &pats.star, InlineStyle::Emphasis))
    } else if starts_with_pattern(s, i, &pats.under) {
        Some((1usize, &pats.under, InlineStyle::Emphasis))
    } else {
        None
    };
    proof {
        assert(sv.subrange(0, n as int) =~= sv);
        if has_prefix(rest, seq!['*', '*']) {
            assert(rest.take(2) =~= seq!['*', '*']);
        } else if has_prefix(rest, seq!['_', '_']) {
            assert(rest.take(2) =~= seq!['_', '_']);
        } else if has_prefix(rest, seq!['~', '~']) {
            assert(rest.take(2) =~= seq!['~', '~']);
        } else if has_prefix(rest, seq!['`']) {
        } else if has_prefix(rest, seq!['*']) {
            assert(rest.take(1) =~= seq!['*']);
        } else if has_prefix(rest, seq!['_']) {
            assert(rest.take(1) =~= seq!['_']);
        }
    }
    match marker {
        Some((len, pattern, style)) => {
            proof {
                lemma_find_shift(sv, pattern@, i as int, i + len);
                lemma_find_from(rest, pattern@, len as int);
            }
            match find_chars(s, pattern, i + len, n) {
                Some(end) => Some((len, end, style)),
                None => None,
            }
        },
        None => None,
    }
}

/// One parsing step at `i`: the emitted characters `s[from..to]`, where the
/// next step starts, and the style of the emitted text.
fn inline_step_at(s: &Vec<char>, i: usize, pats: &Patterns) -> (r: (usize, usize, usize, Option<InlineStyle>))
    requires
        pats.wf(),
        i < s.len(),
    ensures
        i <= r.0 <= r.1 <= r.2 <= s.len(),
        s@.subrange(r.0 as int, r.1 as int) == inline_step(s@, i as int).emitted,
        r.2 == inline_step(s@, i as int).next,
        r.3 == inline_step(s@, i as int).style,
{
    let ghost sv = s@;
    let ghost rest = sv.skip(i as int);
    if s.len() - i >= 2 && s[i] == '\\' {
        assert(sv.subrange(i + 1, i + 2) =~= seq![rest[1]]);
        return (i + 1, i + 2, i + 2, None);
    }
    if let Some((cb, cp)) = find_link(s, i, pats) {
        proof {
            assert(inline_step(sv, i as int).next == cp + 1);
        }
        assert(sv.subrange(i + 1, cb as int) =~= rest.subrange(1, cb - i));
        return (i + 1, cb, cp + 1, Some(InlineStyle::Link));
    }
    if let Some((len, end, style)) = find_marker(s, i, pats) {
        assert(sv.subrange(i + len, end as int) =~= rest.subrange(len as int, end - i));
        return (i + len, end, end + len, Some(style));
    }
    assert(sv.subrange(i as int, i + 1) =~= seq![rest[0]]);
    (i, i + 1, i + 1, None)
}

/// Parses inline markdown (escapes, links and emphasis markers) into plain
/// text with style ranges over its bytes.
pub fn parse_inline(input: &str) -> (r: InlineText)
    ensures
        r@ == parse_inline_view(input@),
{
    let total = str_len(input);
    let s = chars_of(input);
    parse_inline_chars(&s, total)
}

/// `parse_inline` on a character vector of `total` UTF-8 bytes.
pub(crate) fn parse_inline_chars(s: &Vec<char>, total: usize) -> (r: InlineText)
    requires
        total == utf8_len(s@),
    ensures
        r@ == parse_inline_view(s@),
{
    let ghost sv = s@;
    let n = s.len();
    let pats = Patterns::new();
    let mut text = String::new();
    let mut out_len: usize = 0;
    let mut highlights: Vec<InlineHighlight> = Vec::new();
    let mut i: usize = 0;
    proof {
        assert(sv.take(0) =~= Seq::<char>::empty());
    }
    while i < n
        invariant
            s@ == sv,
            n == sv.len(),
            total == utf8_len(sv),
            pats.wf(),
            0 <= i <= n,
            out_len == utf8_len(text@),
            out_len <= utf8_len(sv.take(i as int)),
            parse_inline_from(sv, i as int, InlineTextView { text: text@, highlights: highlights@ })
                == parse_inline_view(sv),
        decreases n - i,
    {
        let ghost st = inline_step(sv, i as int);
        let (from, to, next, style) = inline_step_at(s, i, &pats);
        proof {
            lemma_inline_step(sv, i as int);
            lemma_subrange_utf8_le(sv, from as int, to as int, i as int, next as int);
            lemma_utf8_len_concat(sv.take(i as int), sv.subrange(i as int, next as int));
            assert(sv.take(next as int) =~= sv.take(i as int) + sv.subrange(i as int, next as int));
            lemma_utf8_len_concat(text@, st.emitted);
            crate::text::lemma_byte_offset_mono(sv, next as int, sv.len() as int);
            crate::text::lemma_byte_offset_ends(sv);
        }
        push_chars(&mut text, s, from, to);
        let added = emitted_len(s, from, to);
        let start = out_len;
        out_len = out_len + added;
        if let Some(st_style) = style {
            highlights.push(InlineHighlight { range: start..out_len, style: st_style });
        }
        i = next;
    }
    proof {
        assert(parse_inline_from(sv, i as int, InlineTextView { text: text@, highlights: highlights@ })
            == InlineTextView { text: text@, highlights: highlights@ });
    }
    InlineText { text: text, highlights: highlights }
}

/// `v[at..]` begins with `p`.
fn starts_with_pattern(v: &Vec<char>, at: usize, p: &Vec<char>) -> (b: bool)
    requires
        at <= v.len(),
    ensures
        b == has_prefix(v@.skip(at as int), p@),
{
    if p.len() > v.len() - at {
        return false;
    }
    let mut k: usize = 0;
    while k < p.len()
        invariant
            at <= v.len(),
            p.len() <= v.len() - at,
            0 <= k <= p.len(),
            forall|m: int| 0 <= m < k ==> v@[at + m] == p@[m],
        decreases p.len() - k,
    {
        if v[at + k] != p[k] {
            assert(v@.skip(at as int).take(p@.len() as int)[k as int] != p@[k as int]);
            return false;
        }
        k = k + 1;
    }
    assert(v@.skip(at as int).take(p@.len() as int) =~= p@);
    true
}

/// UTF-8 length of `v[from..to]`.
fn emitted_len(v: &Vec<char>, from: usize, to: usize) -> (n: usize)
    requires
        from <= to <= v.len(),
        utf8_len(v@.subrange(from as int, to as int)) <= usize::MAX,
    ensures
        n == utf8_len(v@.subrange(from as int, to as int)),
{
    let mut k = from;
    let mut n: usize = 0;
    while k < to
        invariant
            from <= k <= to <= v.len(),
            n == utf8_len(v@.subrange(from as int, k as int)),
            utf8_len(v@.subrange(from as int, to as int)) <= usize::MAX,
        decreases to - k,
    {
        proof {
            lemma_subrange_utf8_le(v@, from as int, k + 1, from as int, to as int);
            assert(v@.subrange(from as int, k + 1).drop_last() =~= v@.subrange(from as int, k as int));
        }
        n = n + crate::text::char_utf8_width(v[k]);
        k = k + 1;
    }
    n
}

} // verus!
