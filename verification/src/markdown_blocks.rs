//! Turning the blocks that the streaming markdown parser finds into
//! [`MarkdownBlock`]s: headings, lists, quotes, code fences and tables.
use vstd::prelude::*;
use crate::markdown::{texts_view, BlockView, InlineText, InlineTextView, MarkdownBlock, MarkdownDocument};
use crate::markdown_parse::{parse_inline, parse_inline_view, push_chars};
use crate::text::{
    chars_of, chars_view, find_chars, find_from, first_word, has_prefix, is_ascii_digit, is_whitespace,
    is_ws, leading_run, lemma_find_from, lemma_find_shift, lines, push_char, skip_run, skip_ws,
    starts_with_at, string_from_chars, sub_vec, text_lines, trailing_run_start, trim, trim_bounds,
    trim_run_end, trim_start, word_ranges,
};

verus! {

/// The kinds of block that the streaming markdown parser reports.
#[derive(Debug, Clone, Copy, PartialEq, Eq)]
pub enum MdBlockKind {
    Paragraph,
    Heading,
    ThematicBreak,
    CodeFence,
    List,
    BlockQuote,
    Table,
    HtmlBlock,
    MathBlock,
    FootnoteDefinition,
    Unknown,
}

// ---------------------------------------------------------------------------
// The grammar, as spec functions over characters.
// ---------------------------------------------------------------------------

/// Every character of `s` is an ASCII digit.
pub open spec fn all_digits(s: Seq<char>) -> bool {
    forall|i: int| 0 <= i < s.len() ==> is_ascii_digit(#[trigger] s[i])
}

/// The text of a list item line: after `- `, `* ` or `+ `, or after `N. `
/// where `N` is a (possibly empty) run of digits; `None` for other lines.
pub open spec fn list_item_text(line: Seq<char>) -> Option<Seq<char>> {
    let t = trim_start(line);
    if has_prefix(t, seq!['-', ' ']) || has_prefix(t, seq!['*', ' ']) || has_prefix(t, seq!['+', ' ']) {
        Some(t.skip(2))
    } else {
        match find_from(t, seq!['.', ' '], 0) {
            Some(k) => if all_digits(t.take(k)) {
                Some(t.skip(k + 2))
            } else {
                None
            },
            None => None,
        }
    }
}

/// One line of a list block: a new item, or a continuation joined to the
/// last item with a single space (blank lines and lines before any item are
/// dropped).
pub open spec fn list_step(items: Seq<Seq<char>>, line: Seq<char>) -> Seq<Seq<char>> {
    match list_item_text(line) {
        Some(item) => items.push(item),
        None => if items.len() == 0 || trim(line).len() == 0 {
            items
        } else {
            let last = items.last();
            let joined = if last.len() > 0 && !is_ws(last.last()) {
                last.push(' ') + trim(line)
            } else {
                last + trim(line)
            };
            items.update(items.len() - 1, joined)
        },
    }
}

/// The item texts of a list block with the given lines.
pub open spec fn list_fold(ls: Seq<Seq<char>>) -> Seq<Seq<char>>
    decreases ls.len(),
{
    if ls.len() == 0 {
        Seq::empty()
    } else {
        list_step(list_fold(ls.drop_last()), ls.last())
    }
}

/// Inline parsing of each text.
pub open spec fn inline_all(ts: Seq<Seq<char>>) -> Seq<InlineTextView> {
    ts.map_values(|t: Seq<char>| parse_inline_view(t))
}

/// The language named on a code fence's opening line.
pub open spec fn code_language(line: Seq<char>) -> Option<Seq<char>> {
    let t = trim_start(line);
    if has_prefix(t, seq!['`', '`', '`']) || has_prefix(t, seq!['~', '~', '~']) {
        let rest = t.skip(3);
        let w = word_ranges(rest, 0);
        if w.len() > 0 {
            Some(rest.subrange(w[0].0, w[0].1))
        } else {
            None
        }
    } else {
        None
    }
}

/// A code fence line: it starts with three backticks or three tildes.
pub open spec fn is_fence(line: Seq<char>) -> bool {
    has_prefix(line, seq!['`', '`', '`']) || has_prefix(line, seq!['~', '~', '~'])
}

/// The code lines of a fenced block: every line after the opening one,
/// without a closing fence line.
pub open spec fn code_body_lines(ls: Seq<Seq<char>>) -> Seq<Seq<char>> {
    let rest = if ls.len() > 0 { ls.drop_first() } else { ls };
    if rest.len() > 0 && is_fence(trim_start(rest.last())) {
        rest.drop_last()
    } else {
        rest
    }
}

/// Lines joined with `\n`.
pub open spec fn join_lines(ls: Seq<Seq<char>>) -> Seq<char>
    decreases ls.len(),
{
    if ls.len() == 0 {
        Seq::empty()
    } else if ls.len() == 1 {
        ls[0]
    } else {
        join_lines(ls.drop_last()) + seq!['\n'] + ls.last()
    }
}

/// `s` without leading and trailing `|` characters (`trim_matches('|')`).
pub open spec fn trim_bars(s: Seq<char>) -> Seq<char> {
    let b = s.skip(leading_run(s, '|') as int);
    b.take(trailing_run_start(b, '|') as int)
}

/// A table cell of a separator row: once trimmed, only `-` and `:`.
pub open spec fn cell_ok(c: Seq<char>) -> bool {
    forall|j: int| 0 <= j < trim(c).len() ==> #[trigger] trim(c)[j] == '-' || trim(c)[j] == ':'
}

/// Every `|`-separated cell of `t[i..]` is a separator cell.
pub open spec fn cells_ok(t: Seq<char>, i: int) -> bool
    decreases t.len() - i,
{
    if i < 0 || i > t.len() {
        true
    } else {
        match find_from(t, seq!['|'], i) {
            Some(k) => {
                proof {
                    lemma_find_from(t, seq!['|'], i);
                }
                cell_ok(t.subrange(i, k)) && cells_ok(t, k + 1)
            },
            None => cell_ok(t.subrange(i, t.len() as int)),
        }
    }
}

/// The `| --- | :-: |` row between a table's header and its body.
pub open spec fn is_table_separator(line: Seq<char>) -> bool {
    let t = trim(trim_bars(trim(line)));
    t.len() > 0 && cells_ok(t, 0)
}

/// The rows of a table block: every line but separator rows, trimmed.
pub open spec fn table_rows(ls: Seq<Seq<char>>) -> Seq<InlineTextView>
    decreases ls.len(),
{
    if ls.len() == 0 {
        Seq::empty()
    } else if is_table_separator(ls.last()) {
        table_rows(ls.drop_last())
    } else {
        table_rows(ls.drop_last()).push(parse_inline_view(trim(ls.last())))
    }
}

/// A block quote line without its `>` markers.
pub open spec fn quote_line(line: Seq<char>) -> Seq<char> {
    let t = trim_start(line);
    trim_start(t.skip(leading_run(t, '>') as int))
}

/// A heading level: the number of `#`, between 1 and 6.
pub open spec fn heading_level(n: nat) -> u8 {
    if n < 1 {
        1
    } else if n > 6 {
        6
    } else {
        n as u8
    }
}

/// The heading block of `text`.
pub open spec fn heading_view(text: Seq<char>) -> BlockView {
    let t = trim_start(text);
    let level = leading_run(t, '#');
    BlockView::Heading {
        level: heading_level(level),
        content: parse_inline_view(trim_start(t.skip(level as int))),
    }
}

/// The code block of `text`.
pub open spec fn code_view(text: Seq<char>) -> BlockView {
    let ls = lines(text);
    BlockView::Code {
        language: if ls.len() > 0 {
            code_language(ls[0])
        } else {
            None
        },
        text: join_lines(code_body_lines(ls)),
    }
}

/// The markdown block that a parsed block of the given kind and text becomes.
pub open spec fn block_view(kind: MdBlockKind, text: Seq<char>) -> BlockView {
    match kind {
        MdBlockKind::Heading => heading_view(text),
        MdBlockKind::Paragraph => BlockView::Paragraph(parse_inline_view(trim(text))),
        MdBlockKind::List => BlockView::List(inline_all(list_fold(lines(text)))),
        MdBlockKind::BlockQuote => BlockView::Quote(
            inline_all(lines(text).map_values(|l: Seq<char>| quote_line(l))),
        ),
        MdBlockKind::CodeFence => code_view(text),
        MdBlockKind::Table => BlockView::Table(table_rows(lines(text))),
        MdBlockKind::ThematicBreak => BlockView::Rule,
        _ => BlockView::Raw(parse_inline_view(trim(text))),
    }
}

// ---------------------------------------------------------------------------
// Line-level functions.
// ---------------------------------------------------------------------------

/// `trim_start(v)` as an index into `v`.
fn trim_start_index(v: &Vec<char>) -> (r: usize)
    ensures
        r <= v.len(),
        trim_start(v@) == v@.skip(r as int),
{
    let r = skip_ws(v, 0, v.len());
    assert(v@.subrange(0, v@.len() as int) =~= v@);
    r
}

/// Every character of `v[from..to]` is an ASCII digit.
fn digits_only(v: &Vec<char>, from: usize, to: usize) -> (b: bool)
    requires
        from <= to <= v.len(),
    ensures
        b == all_digits(v@.subrange(from as int, to as int)),
{
    let mut i = from;
    while i < to
        invariant
            from <= i <= to <= v.len(),
            forall|m: int| from <= m < i ==> is_ascii_digit(#[trigger] v@[m]),
        decreases to - i,
    {
        let c = v[i];
        if !('0' <= c && c <= '9') {
            assert(v@.subrange(from as int, to as int)[i - from] == c);
            return false;
        }
        i = i + 1;
    }
    assert forall|m: int| 0 <= m < v@.subrange(from as int, to as int).len() implies is_ascii_digit(
        #[trigger] v@.subrange(from as int, to as int)[m],
    ) by {
        assert(v@.subrange(from as int, to as int)[m] == v@[from + m]);
    }
    true
}

/// Where the text of a list item line starts, if the line is one.
pub fn list_item_start(l: &Vec<char>) -> (r: Option<usize>)
    ensures
        match r {
            Some(a) => a <= l.len() && list_item_text(l@) == Some(l@.skip(a as int)),
            None => list_item_text(l@) is None,
        },
{
    let n = l.len();
    let t0 = trim_start_index(l);
    let ghost t = l@.skip(t0 as int);
    proof {
        reveal_strlit("- ");
        reveal_strlit("* ");
        reveal_strlit("+ ");
        reveal_strlit(". ");
        assert("- "@ =~= seq!['-', ' ']);
        assert("* "@ =~= seq!['*', ' ']);
        assert("+ "@ =~= seq!['+', ' ']);
        assert(". "@ =~= seq!['.', ' ']);
    }
    if starts_with_at(l, t0, "- ") || starts_with_at(l, t0, "* ") || starts_with_at(l, t0, "+ ") {
        assert(t.skip(2) =~= l@.skip(t0 + 2));
        return Some(t0 + 2);
    }
    let pat = chars_of(". ");
    proof {
        lemma_find_shift(l@, seq!['.', ' '], t0 as int, t0 as int);
        lemma_find_from(t, seq!['.', ' '], 0);
        assert(l@.subrange(0, n as int) =~= l@);
    }
    match find_chars(l, &pat, t0, n) {
        Some(k) => {
            let ok = digits_only(l, t0, k);
            assert(t.take(k - t0) =~= l@.subrange(t0 as int, k as int));
            if ok {
                assert(t.skip(k - t0 + 2) =~= l@.skip(k + 2));
                Some(k + 2)
            } else {
                None
            }
        },
        None => None,
    }
}

/// Appends `v[from..to]`'s characters to `cur`.
fn extend_chars(cur: &mut Vec<char>, v: &Vec<char>, from: usize, to: usize)
    requires
        from <= to <= v.len(),
    ensures
        final(cur)@ == old(cur)@ + v@.subrange(from as int, to as int),
{
    let mut k = from;
    while k < to
        invariant
            from <= k <= to <= v.len(),
            cur@ == old(cur)@ + v@.subrange(from as int, k as int),
        decreases to - k,
    {
        cur.push(v[k]);
        assert(v@.subrange(from as int, k + 1) =~= v@.subrange(from as int, k as int).push(v@[k as int]));
        k = k + 1;
    }
}

/// The views of a vector of strings.
pub open spec fn strings_view(v: Seq<String>) -> Seq<Seq<char>> {
    v.map_values(|s: String| s@)
}

/// The items that the lines of a list block hold.
pub fn list_item_texts(ls: &Vec<Vec<char>>) -> (r: Vec<String>)
    ensures
        strings_view(r@) == list_fold(chars_view(ls@)),
{
    let ghost lv = chars_view(ls@);
    let mut done: Vec<String> = Vec::new();
    let mut cur: Vec<char> = Vec::new();
    let mut has_cur = false;
    let mut k: usize = 0;
    while k < ls.len()
        invariant
            0 <= k <= ls.len(),
            lv == chars_view(ls@),
            !has_cur ==> done@.len() == 0,
            list_fold(lv.take(k as int)) == strings_view(done@) + (if has_cur {
                seq![cur@]
            } else {
                Seq::<Seq<char>>::empty()
            }),
        decreases ls.len() - k,
    {
        let ghost items = list_fold(lv.take(k as int));
        let l = &ls[k];
        proof {
            assert(lv.take(k + 1).drop_last() =~= lv.take(k as int));
            assert(lv.take(k + 1).last() == l@);
        }
        match list_item_start(l) {
            Some(a) => {
                if has_cur {
                    let s = string_from_chars(&cur, 0, cur.len());
                    assert(cur@.subrange(0, cur@.len() as int) =~= cur@);
                    done.push(s);
                }
                cur = sub_vec(l, a, l.len());
                assert(l@.subrange(a as int, l@.len() as int) =~= l@.skip(a as int));
                has_cur = true;
                assert(strings_view(done@) + seq![cur@] =~= items.push(cur@));
            },
            None => {
                let (p, q) = trim_bounds(l, 0, l.len());
                assert(l@.subrange(0, l@.len() as int) =~= l@);
                if has_cur && p < q {
                    let ghost before = cur@;
                    if cur.len() > 0 && !is_whitespace(cur[cur.len() - 1]) {
                        cur.push(' ');
                    }
                    extend_chars(&mut cur, l, p, q);
                    assert(strings_view(done@) + seq![cur@] =~= items.update(
                        items.len() - 1,
                        cur@,
                    ));
                }
            },
        }
        k = k + 1;
    }
    if has_cur {
        let s = string_from_chars(&cur, 0, cur.len());
        assert(cur@.subrange(0, cur@.len() as int) =~= cur@);
        done.push(s);
    }
    assert(lv.take(k as int) =~= lv);
    assert(strings_view(done@) =~= list_fold(lv));
    done
}

/// Inline parsing of each string.
pub fn parse_inline_all(ts: &Vec<String>) -> (r: Vec<InlineText>)
    ensures
        texts_view(r@) == inline_all(strings_view(ts@)),
{
    let mut r: Vec<InlineText> = Vec::new();
    let mut k: usize = 0;
    while k < ts.len()
        invariant
            0 <= k <= ts.len(),
            texts_view(r@) == inline_all(strings_view(ts@)).take(k as int),
        decreases ts.len() - k,
    {
        let t = parse_inline(ts[k].as_str());
        let ghost old_r = r@;
        r.push(t);
        assert(texts_view(r@) =~= texts_view(old_r).push(t@));
        assert(inline_all(strings_view(ts@)).take(k + 1) =~= inline_all(strings_view(ts@)).take(
            k as int,
        ).push(parse_inline_view(ts@[k as int]@)));
        k = k + 1;
    }
    assert(inline_all(strings_view(ts@)).take(k as int) =~= inline_all(strings_view(ts@)));
    r
}

/// The language named on a fence line, if any.
pub fn fence_language(l: &Vec<char>) -> (r: Option<String>)
    ensures
        match r {
            Some(s) => code_language(l@) == Some(s@),
            None => code_language(l@) is None,
        },
{
    let n = l.len();
    let t0 = trim_start_index(l);
    proof {
        reveal_strlit("```");
        reveal_strlit("~~~");
        assert("```"@ =~= seq!['`', '`', '`']);
        assert("~~~"@ =~= seq!['~', '~', '~']);
    }
    if !(starts_with_at(l, t0, "```") || starts_with_at(l, t0, "~~~")) {
        return None;
    }
    let rest = sub_vec(l, t0 + 3, n);
    assert(rest@ =~= l@.skip(t0 as int).skip(3));
    match first_word(&rest, 0) {
        Some((a, b)) => Some(string_from_chars(&rest, a, b)),
        None => None,
    }
}

/// `is_fence(trim_start(l))`.
fn is_closing_fence(l: &Vec<char>) -> (b: bool)
    ensures
        b == is_fence(trim_start(l@)),
{
    let t0 = trim_start_index(l);
    proof {
        reveal_strlit("```");
        reveal_strlit("~~~");
        assert("```"@ =~= seq!['`', '`', '`']);
        assert("~~~"@ =~= seq!['~', '~', '~']);
    }
    starts_with_at(l, t0, "```") || starts_with_at(l, t0, "~~~")
}

/// The code block of a fenced block with the given lines.
pub fn parse_code_block(ls: &Vec<Vec<char>>) -> (b: MarkdownBlock)
    ensures
        b@ == (BlockView::Code {
            language: if ls@.len() > 0 {
                code_language(ls@[0]@)
            } else {
                None
            },
            text: join_lines(code_body_lines(chars_view(ls@))),
        }),
{
    let ghost lv = chars_view(ls@);
    let n = ls.len();
    let language = if n > 0 {
        fence_language(&ls[0])
    } else {
        None
    };
    let mut end = n;
    if n > 1 && is_closing_fence(&ls[n - 1]) {
        end = n - 1;
    }
    let ghost body = code_body_lines(lv);
    proof {
        if n > 0 {
            assert(body =~= lv.subrange(1, end as int));
        } else {
            assert(body =~= Seq::<Seq<char>>::empty());
        }
    }
    let mut text = String::new();
    let mut k: usize = if n > 0 { 1 } else { 0 };
    let start = k;
    while k < end
        invariant
            start <= k <= end <= n == ls.len(),
            lv == chars_view(ls@),
            start == (if n > 0 { 1usize } else { 0usize }),
            text@ == join_lines(lv.subrange(start as int, k as int)),
        decreases end - k,
    {
        if k > start {
            push_char(&mut text, '\n');
        }
        push_chars(&mut text, &ls[k], 0, ls[k].len());
        proof {
            assert(ls@[k as int]@.subrange(0, ls@[k as int]@.len() as int) =~= ls@[k as int]@);
            let next = lv.subrange(start as int, k + 1);
            assert(next.drop_last() =~= lv.subrange(start as int, k as int));
            if k == start {
                assert(next =~= seq![lv[k as int]]);
            }
        }
        k = k + 1;
    }
    proof {
        if n > 0 {
            assert(lv[0] == ls@[0]@);
        }
        assert(lv.subrange(start as int, end as int) =~= body);
    }
    MarkdownBlock::Code { language: language, text: text }
}

/// Whether a table line is the separator row.
pub fn table_separator(l: &Vec<char>) -> (b: bool)
    ensures
        b == is_table_separator(l@),
{
    let n = l.len();
    let (a, b) = trim_bounds(l, 0, n);
    let c = skip_run(l, a, b, '|');
    let d = trim_run_end(l, c, b, '|');
    let (e, f) = trim_bounds(l, c, d);
    proof {
        assert(l@.subrange(0, n as int) =~= l@);
        let x = l@.subrange(a as int, b as int);
        assert(x.skip(leading_run(x, '|') as int) =~= l@.subrange(c as int, b as int));
        let y = l@.subrange(c as int, b as int);
        assert(y.take(trailing_run_start(y, '|') as int) =~= l@.subrange(c as int, d as int));
    }
    if e == f {
        return false;
    }
    let t = sub_vec(l, e, f);
    separator_cells(&t)
}

/// Every character of `t[p..q]` is `-` or `:`.
fn dashes_only(t: &Vec<char>, p: usize, q: usize) -> (b: bool)
    requires
        p <= q <= t.len(),
    ensures
        b <==> forall|x: int| p <= x < q ==> #[trigger] t@[x] == '-' || t@[x] == ':',
{
    let mut j = p;
    while j < q
        invariant
            p <= j <= q <= t.len(),
            forall|x: int| p <= x < j ==> #[trigger] t@[x] == '-' || t@[x] == ':',
        decreases q - j,
    {
        if t[j] != '-' && t[j] != ':' {
            return false;
        }
        j = j + 1;
    }
    true
}

/// `cells_ok(t, 0)`.
fn separator_cells(t: &Vec<char>) -> (b: bool)
    ensures
        b == cells_ok(t@, 0),
{
    let m = t.len();
    let bar = chars_of("|");
    proof {
        reveal_strlit("|");
        assert("|"@ =~= seq!['|']);
    }
    let mut i: usize = 0;
    loop
        invariant
            0 <= i <= m,
            m == t.len(),
            bar@ == seq!['|'],
            cells_ok(t@, 0) == cells_ok(t@, i as int),
        decreases m - i,
    {
        proof {
            lemma_find_from(t@, seq!['|'], i as int);
            assert(t@.subrange(0, m as int) =~= t@);
        }
        let found = find_chars(t, &bar, i, m);
        let k = match found {
            Some(k) => k,
            None => m,
        };
        let (p, q) = trim_bounds(t, i, k);
        let ghost cell = t@.subrange(i as int, k as int);
        proof {
            if k < m {
                assert(cells_ok(t@, i as int) == (cell_ok(cell) && cells_ok(t@, k + 1)));
            } else {
                assert(cells_ok(t@, i as int) == cell_ok(cell));
            }
        }
        let ok = dashes_only(t, p, q);
        if !ok {
            proof {
                let x = choose|x: int| p <= x < q && !(t@[x] == '-' || t@[x] == ':');
                assert(t@.subrange(p as int, q as int)[x - p] == t@[x]);
                assert(!cell_ok(cell));
            }
            return false;
        }
        assert(cell_ok(cell)) by {
            assert forall|x: int| 0 <= x < trim(cell).len() implies #[trigger] trim(cell)[x] == '-' || trim(
                cell,
            )[x] == ':' by {
                assert(t@.subrange(p as int, q as int)[x] == t@[p + x]);
            }
        }
        if k == m {
            return true;
        }
        i = k + 1;
    }
}

/// The rows of a table block with the given lines.
pub fn parse_table_rows(ls: &Vec<Vec<char>>) -> (r: Vec<InlineText>)
    ensures
        texts_view(r@) == table_rows(chars_view(ls@)),
{
    let ghost lv = chars_view(ls@);
    let mut r: Vec<InlineText> = Vec::new();
    let mut k: usize = 0;
    while k < ls.len()
        invariant
            0 <= k <= ls.len(),
            lv == chars_view(ls@),
            texts_view(r@) == table_rows(lv.take(k as int)),
        decreases ls.len() - k,
    {
        let l = &ls[k];
        proof {
            assert(lv.take(k + 1).drop_last() =~= lv.take(k as int));
            assert(lv.take(k + 1).last() == l@);
        }
        if !table_separator(l) {
            let (p, q) = trim_bounds(l, 0, l.len());
            assert(l@.subrange(0, l@.len() as int) =~= l@);
            let s = string_from_chars(l, p, q);
            let t = parse_inline(s.as_str());
            let ghost old_r = r@;
            r.push(t);
            assert(texts_view(r@) =~= texts_view(old_r).push(t@));
        }
        k = k + 1;
    }
    assert(lv.take(k as int) =~= lv);
    r
}

/// The lines of a block quote, without their markers, inline-parsed.
pub fn parse_quote_lines(ls: &Vec<Vec<char>>) -> (r: Vec<InlineText>)
    ensures
        texts_view(r@) == inline_all(chars_view(ls@).map_values(|l: Seq<char>| quote_line(l))),
{
    let ghost want = inline_all(chars_view(ls@).map_values(|l: Seq<char>| quote_line(l)));
    let mut r: Vec<InlineText> = Vec::new();
    let mut k: usize = 0;
    while k < ls.len()
        invariant
            0 <= k <= ls.len(),
            want == inline_all(chars_view(ls@).map_values(|l: Seq<char>| quote_line(l))),
            texts_view(r@) == want.take(k as int),
        decreases ls.len() - k,
    {
        let l = &ls[k];
        let n = l.len();
        let a = trim_start_index(l);
        let b = skip_run(l, a, n, '>');
        let c = skip_ws(l, b, n);
        proof {
            let t = l@.skip(a as int);
            assert(t =~= l@.subrange(a as int, n as int));
            assert(t.skip(leading_run(t, '>') as int) =~= l@.subrange(b as int, n as int));
            assert(trim_start(l@.subrange(b as int, n as int)) =~= l@.subrange(c as int, n as int));
        }
        let s = string_from_chars(l, c, n);
        let t = parse_inline(s.as_str());
        let ghost old_r = r@;
        r.push(t);
        assert(texts_view(r@) =~= texts_view(old_r).push(t@));
        assert(want.take(k + 1) =~= want.take(k as int).push(want[k as int]));
        k = k + 1;
    }
    assert(want.take(k as int) =~= want);
    r
}

/// The heading block of `v`.
pub fn parse_heading(v: &Vec<char>) -> (b: MarkdownBlock)
    ensures
        b@ == heading_view(v@),
{
    let n = v.len();
    let t0 = trim_start_index(v);
    let e = skip_run(v, t0, n, '#');
    let c = skip_ws(v, e, n);
    let ghost t = v@.skip(t0 as int);
    proof {
        assert(t =~= v@.subrange(t0 as int, n as int));
        assert(t.skip(leading_run(t, '#') as int) =~= v@.subrange(e as int, n as int));
        assert(trim_start(v@.subrange(e as int, n as int)) =~= v@.subrange(c as int, n as int));
    }
    let count = e - t0;
    let level: u8 = if count < 1 {
        1
    } else if count > 6 {
        6
    } else {
        count as u8
    };
    let s = string_from_chars(v, c, n);
    let content = parse_inline(s.as_str());
    MarkdownBlock::Heading { level: level, content: content }
}

/// Inline parsing of the trimmed text.
fn parse_trimmed(v: &Vec<char>) -> (t: InlineText)
    ensures
        t@ == parse_inline_view(trim(v@)),
{
    let (a, b) = trim_bounds(v, 0, v.len());
    assert(v@.subrange(0, v@.len() as int) =~= v@);
    let s = string_from_chars(v, a, b);
    parse_inline(s.as_str())
}

/// The markdown block that a parsed block of the given kind and text becomes.
pub fn parse_block(kind: MdBlockKind, text: &str) -> (b: MarkdownBlock)
    ensures
        b@ == block_view(kind, text@),
{
    let v = chars_of(text);
    match kind {
        MdBlockKind::Heading => parse_heading(&v),
        MdBlockKind::Paragraph => MarkdownBlock::Paragraph(parse_trimmed(&v)),
        MdBlockKind::List => {
            let ls = text_lines(&v);
            let items = list_item_texts(&ls);
            MarkdownBlock::List(parse_inline_all(&items))
        },
        MdBlockKind::BlockQuote => {
            let ls = text_lines(&v);
            MarkdownBlock::Quote(parse_quote_lines(&ls))
        },
        MdBlockKind::CodeFence => {
            let ls = text_lines(&v);
            proof {
                if ls@.len() > 0 {
                    assert(chars_view(ls@)[0] == ls@[0]@);
                }
            }
            parse_code_block(&ls)
        },
        MdBlockKind::Table => {
            let ls = text_lines(&v);
            MarkdownBlock::Table(parse_table_rows(&ls))
        },
        MdBlockKind::ThematicBreak => MarkdownBlock::Rule,
        _ => MarkdownBlock::Raw(parse_trimmed(&v)),
    }
}


// ---------------------------------------------------------------------------
// Documents, through the streaming parser.
// ---------------------------------------------------------------------------

#[verifier::external_type_specification]
#[verifier::external_body]
pub struct ExBlockKind(mdstream::BlockKind);

/// The blocks that `mdstream` finds in a whole text (fed at once, then
/// finalized): each block's kind and display text, in document order.
pub uninterp spec fn markdown_blocks(text: Seq<char>) -> Seq<(MdBlockKind, Seq<char>)>;

/// Kinds and texts of raw blocks.
pub open spec fn raw_blocks_view(v: Seq<(MdBlockKind, String)>) -> Seq<(MdBlockKind, Seq<char>)> {
    v.map_values(|b: (MdBlockKind, String)| (b.0, b.1@))
}

/// The document made of the given raw blocks.
pub open spec fn document_view(raw: Seq<(MdBlockKind, Seq<char>)>) -> Seq<BlockView> {
    raw.map_values(|b: (MdBlockKind, Seq<char>)| block_view(b.0, b.1))
}

/// `mdstream::BlockKind` as a [`MdBlockKind`], variant for variant.
#[verifier::external_body]
fn block_kind(kind: &mdstream::BlockKind) -> MdBlockKind {
    match kind {
        mdstream::BlockKind::Paragraph => MdBlockKind::Paragraph,
        mdstream::BlockKind::Heading => MdBlockKind::Heading,
        mdstream::BlockKind::ThematicBreak => MdBlockKind::ThematicBreak,
        mdstream::BlockKind::CodeFence => MdBlockKind::CodeFence,
        mdstream::BlockKind::List => MdBlockKind::List,
        mdstream::BlockKind::BlockQuote => MdBlockKind::BlockQuote,
        mdstream::BlockKind::Table => MdBlockKind::Table,
        mdstream::BlockKind::HtmlBlock => MdBlockKind::HtmlBlock,
        mdstream::BlockKind::MathBlock => MdBlockKind::MathBlock,
        mdstream::BlockKind::FootnoteDefinition => MdBlockKind::FootnoteDefinition,
        mdstream::BlockKind::Unknown => MdBlockKind::Unknown,
    }
}

/// Runs `mdstream` over a whole text: `MdStream::append` then
/// `MdStream::finalize`, both applied to a fresh `DocumentState`, whose
/// `blocks()` are listed with their kind and `display_or_raw()` text. The
/// result is stated only through the name `markdown_blocks`: it depends on
/// the text alone.
#[verifier::external_body]
fn stream_blocks(text: &str) -> (r: Vec<(MdBlockKind, String)>)
    ensures
        raw_blocks_view(r@) == markdown_blocks(text@),
{
    let mut stream = mdstream::MdStream::new(mdstream::Options::default());
    let mut state = mdstream::DocumentState::new();
    state.apply(stream.append(text));
    state.apply(stream.finalize());
    state.blocks().map(|b| (block_kind(&b.kind), b.display_or_raw().to_owned())).collect()
}

/// A streaming parser: an `mdstream::MdStream` with default options, and
/// the `mdstream::DocumentState` to which every update that the stream
/// returned has been applied. The two are held together so that they stay in
/// step; what the parser holds is known through `parser_chunks`.
#[verifier::external_body]
#[derive(Debug)]
pub struct MdParser {
    stream: mdstream::MdStream,
    state: mdstream::DocumentState,
}

/// The chunks of text fed to a parser so far, in the order they were fed.
pub uninterp spec fn parser_chunks(parser: MdParser) -> Seq<Seq<char>>;

/// The blocks that a fresh `mdstream::MdStream` (default options) and a
/// fresh `DocumentState` hold once the given chunks have been appended one
/// after another, each update applied to the state: `DocumentState::blocks`,
/// committed then pending, each with its kind and `display_or_raw()` text.
/// mdstream reads no clock and no randomness, so this depends on the chunks
/// alone.
pub uninterp spec fn streamed_blocks(chunks: Seq<Seq<char>>) -> Seq<(MdBlockKind, Seq<char>)>;

/// `MdStream::new` with default options and `DocumentState::new`: a parser
/// fed nothing yet.
#[verifier::external_body]
fn parser_new() -> (p: MdParser)
    ensures
        parser_chunks(p) == Seq::<Seq<char>>::empty(),
{
    MdParser { stream: mdstream::MdStream::new(mdstream::Options::default()), state: mdstream::DocumentState::new() }
}

/// `MdStream::append(delta)`, the update applied with
/// `DocumentState::apply`, then `DocumentState::blocks` listed with each
/// block's kind and `display_or_raw()` text: `delta` is the parser's newest
/// chunk, and the blocks are those of all its chunks.
#[verifier::external_body]
fn parser_feed(parser: &mut MdParser, delta: &str) -> (r: Vec<(MdBlockKind, String)>)
    ensures
        parser_chunks(*final(parser)) == parser_chunks(*old(parser)).push(delta@),
        raw_blocks_view(r@) == streamed_blocks(parser_chunks(*final(parser))),
{
    let update = parser.stream.append(delta);
    let _ = parser.state.apply(update);
    parser.state.blocks().map(|b| (block_kind(&b.kind), b.display_or_raw().to_owned())).collect()
}

/// The document made of the given raw blocks, one markdown block each.
pub fn document_from_blocks(blocks: &Vec<(MdBlockKind, String)>) -> (d: MarkdownDocument)
    ensures
        d@ == document_view(raw_blocks_view(blocks@)),
{
    let ghost want = document_view(raw_blocks_view(blocks@));
    let mut out: Vec<MarkdownBlock> = Vec::new();
    let mut k: usize = 0;
    while k < blocks.len()
        invariant
            0 <= k <= blocks.len(),
            want == document_view(raw_blocks_view(blocks@)),
            out@.map_values(|b: MarkdownBlock| b@) == want.take(k as int),
        decreases blocks.len() - k,
    {
        let b = parse_block(blocks[k].0, blocks[k].1.as_str());
        let ghost old_out = out@;
        out.push(b);
        assert(out@.map_values(|b: MarkdownBlock| b@) =~= old_out.map_values(|b: MarkdownBlock| b@).push(b@));
        assert(want.take(k + 1) =~= want.take(k as int).push(want[k as int]));
        k = k + 1;
    }
    assert(want.take(k as int) =~= want);
    MarkdownDocument { blocks: out }
}

/// Parses a whole markdown text into a document.
pub fn parse_document(text: &str) -> (d: MarkdownDocument)
    ensures
        d@ == document_view(markdown_blocks(text@)),
{
    let raw = stream_blocks(text);
    document_from_blocks(&raw)
}

/// Parser state retained for an assistant part while it is streaming. The
/// parser then consumes only the new delta instead of reparsing the whole
/// response on every event.
#[derive(Debug)]
pub struct StreamingMarkdown {
    parser: MdParser,
}

impl StreamingMarkdown {
    /// The chunks of text fed so far, in order.
    pub closed spec fn chunks(&self) -> Seq<Seq<char>> {
        parser_chunks(self.parser)
    }

    /// A fresh parser, fed nothing yet.
    pub fn new() -> (s: Self)
        ensures
            s.chunks() == Seq::<Seq<char>>::empty(),
    {
        StreamingMarkdown { parser: parser_new() }
    }

    /// Feeds `delta` as the next chunk and returns the document parsed so
    /// far: the streamed blocks of every chunk fed, each turned into a
    /// markdown block by `block_view`.
    pub fn append(&mut self, delta: &str) -> (d: MarkdownDocument)
        ensures
            final(self).chunks() == old(self).chunks().push(delta@),
            d@ == document_view(streamed_blocks(final(self).chunks())),
    {
        let raw = parser_feed(&mut self.parser, delta);
        document_from_blocks(&raw)
    }
}

} // verus!
