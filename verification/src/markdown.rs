//! Markdown documents as the transcript renders them, and their splitting
//! into bounded render rows ("virtualization").
use vstd::prelude::*;
use crate::text::{
    byte_offset, char_utf8_width, chars_of, clone_opt, is_whitespace, is_ws, lemma_byte_offset_ends,
    lemma_byte_offset_mono, lemma_byte_offset_step, lemma_widths, str_len, string_from_chars,
    opt_view, utf8_len, };

verus! {

/// Longest text (in bytes) that one render row holds before it is split.
pub const VIRTUAL_ROW_BYTES: usize = 1024;

/// Most list items, quote lines or table rows in one render row.
pub const VIRTUAL_ROW_ITEMS: usize = 16;

/// `Range::clone` (used by the derived `Clone` impls below). Nothing is stated
/// of the copy.
pub assume_specification<Idx: Clone>[ <std::ops::Range<Idx> as Clone>::clone ](
    r: &std::ops::Range<Idx>,
) -> std::ops::Range<Idx>;

#[derive(Debug, Clone, PartialEq, Eq)]
pub struct MarkdownDocument {
    pub blocks: Vec<MarkdownBlock>,
}

#[derive(Debug, Clone, PartialEq, Eq)]
pub struct MarkdownRenderBlock {
    pub block: MarkdownBlock,
    pub continuation: bool,
    pub syntax_highlights: Vec<MarkdownSyntaxHighlight>,
}

#[derive(Debug, Clone, PartialEq, Eq)]
pub struct MarkdownSyntaxHighlight {
    pub range: std::ops::Range<usize>,
    pub color: Option<[u8; 3]>,
    pub bold: bool,
    pub italic: bool,
    pub underline: bool,
}

#[derive(Debug, Clone, PartialEq, Eq)]
pub enum MarkdownBlock {
    Paragraph(InlineText),
    Heading { level: u8, content: InlineText },
    List(Vec<InlineText>),
    Quote(Vec<InlineText>),
    Code { language: Option<String>, text: String },
    Table(Vec<InlineText>),
    Rule,
    Raw(InlineText),
}

#[derive(Debug, Clone, PartialEq, Eq)]
pub struct InlineText {
    pub text: String,
    pub highlights: Vec<InlineHighlight>,
}

#[derive(Debug, Clone, PartialEq, Eq)]
pub struct InlineHighlight {
    pub range: std::ops::Range<usize>,
    pub style: InlineStyle,
}

#[derive(Debug, Clone, Copy, PartialEq, Eq)]
pub enum InlineStyle {
    Emphasis,
    Strong,
    Strikethrough,
    Code,
    Link,
}

/// Mathematical form of [`InlineText`].
pub struct InlineTextView {
    pub text: Seq<char>,
    pub highlights: Seq<InlineHighlight>,
}

/// Mathematical form of [`MarkdownBlock`].
pub enum BlockView {
    Paragraph(InlineTextView),
    Heading { level: u8, content: InlineTextView },
    List(Seq<InlineTextView>),
    Quote(Seq<InlineTextView>),
    Code { language: Option<Seq<char>>, text: Seq<char> },
    Table(Seq<InlineTextView>),
    Rule,
    Raw(InlineTextView),
}

/// Mathematical form of [`MarkdownRenderBlock`].
pub struct RenderBlockView {
    pub block: BlockView,
    pub continuation: bool,
    pub syntax_highlights: Seq<MarkdownSyntaxHighlight>,
}

impl View for InlineText {
    type V = InlineTextView;

    open spec fn view(&self) -> InlineTextView {
        InlineTextView { text: self.text@, highlights: self.highlights@ }
    }
}

/// The views of a vector of inline texts.
pub open spec fn texts_view(v: Seq<InlineText>) -> Seq<InlineTextView> {
    v.map_values(|t: InlineText| t@)
}

impl View for MarkdownBlock {
    type V = BlockView;

    open spec fn view(&self) -> BlockView {
        match self {
            MarkdownBlock::Paragraph(t) => BlockView::Paragraph(t@),
            MarkdownBlock::Heading { level, content } => BlockView::Heading {
                level: *level,
                content: content@,
            },
            MarkdownBlock::List(items) => BlockView::List(texts_view(items@)),
            MarkdownBlock::Quote(items) => BlockView::Quote(texts_view(items@)),
            MarkdownBlock::Code { language, text } => BlockView::Code {
                language: match language {
                    Some(l) => Some(l@),
                    None => None,
                },
                text: text@,
            },
            MarkdownBlock::Table(items) => BlockView::Table(texts_view(items@)),
            MarkdownBlock::Rule => BlockView::Rule,
            MarkdownBlock::Raw(t) => BlockView::Raw(t@),
        }
    }
}

impl View for MarkdownRenderBlock {
    type V = RenderBlockView;

    open spec fn view(&self) -> RenderBlockView {
        RenderBlockView {
            block: self.block@,
            continuation: self.continuation,
            syntax_highlights: self.syntax_highlights@,
        }
    }
}

impl View for MarkdownDocument {
    type V = Seq<BlockView>;

    open spec fn view(&self) -> Seq<BlockView> {
        self.blocks@.map_values(|b: MarkdownBlock| b@)
    }
}

/// The views of a vector of render blocks.
pub open spec fn render_view(v: Seq<MarkdownRenderBlock>) -> Seq<RenderBlockView> {
    v.map_values(|b: MarkdownRenderBlock| b@)
}

/// A highlight clipped to the byte range `[start, end)` and made relative to
/// `start`, or nothing when the overlap is empty.
pub open spec fn clip_highlight(h: InlineHighlight, start: int, end: int) -> Option<InlineHighlight> {
    let s = if h.range.start >= start { h.range.start as int } else { start };
    let e = if h.range.end <= end { h.range.end as int } else { end };
    if s < e {
        Some(InlineHighlight { range: ((s - start) as usize)..((e - start) as usize), style: h.style })
    } else {
        None
    }
}

/// All highlights of `hs` clipped to `[start, end)`, in order.
pub open spec fn clip_highlights(hs: Seq<InlineHighlight>, start: int, end: int) -> Seq<InlineHighlight>
    decreases hs.len(),
{
    if hs.len() == 0 {
        Seq::empty()
    } else {
        let rest = clip_highlights(hs.drop_last(), start, end);
        match clip_highlight(hs.last(), start, end) {
            Some(h) => rest.push(h),
            None => rest,
        }
    }
}

/// The part of an inline text between the characters with indices `i` and `j`.
pub open spec fn slice_view(t: InlineTextView, i: int, j: int) -> InlineTextView {
    InlineTextView {
        text: t.text.subrange(i, j),
        highlights: clip_highlights(
            t.highlights,
            byte_offset(t.text, i) as int,
            byte_offset(t.text, j) as int,
        ),
    }
}

/// Smallest character index at or after `i` whose byte offset reaches `limit`.
pub open spec fn round_up_char(s: Seq<char>, i: int, limit: int) -> int
    decreases s.len() - i,
{
    if i >= s.len() || byte_offset(s, i) >= limit {
        i
    } else {
        round_up_char(s, i + 1, limit)
    }
}

/// Index of the last whitespace character in `s[lo..hi]`.
pub open spec fn last_ws_in(s: Seq<char>, lo: int, hi: int) -> Option<int>
    decreases hi - lo,
{
    if hi <= lo {
        None
    } else if is_ws(s[hi - 1]) {
        Some(hi - 1)
    } else {
        last_ws_in(s, lo, hi - 1)
    }
}

/// Where the render row that starts at character `i` ends: at most
/// `VIRTUAL_ROW_BYTES` further (rounded up to a character), pulled back to
/// just after the last whitespace in that window unless the window reaches
/// the end of the text.
pub open spec fn chunk_end(s: Seq<char>, i: int) -> int {
    let total = utf8_len(s) as int;
    let start = byte_offset(s, i) as int;
    let limit = if start + VIRTUAL_ROW_BYTES < total { start + VIRTUAL_ROW_BYTES } else { total };
    let lc = round_up_char(s, i, limit);
    if lc < s.len() {
        match last_ws_in(s, i, lc) {
            Some(w) => w + 1,
            None => lc,
        }
    } else {
        lc
    }
}

proof fn lemma_round_up(s: Seq<char>, i: int, limit: int)
    requires
        0 <= i <= s.len(),
    ensures
        i <= round_up_char(s, i, limit) <= s.len(),
        byte_offset(s, i) >= limit ==> round_up_char(s, i, limit) == i,
        round_up_char(s, i, limit) < s.len() ==> byte_offset(s, round_up_char(s, i, limit)) >= limit,
        forall|j: int| i <= j < round_up_char(s, i, limit) ==> byte_offset(s, j) < limit,
    decreases s.len() - i,
{
    if i < s.len() && byte_offset(s, i) < limit {
        lemma_round_up(s, i + 1, limit);
    }
}

pub proof fn lemma_last_ws(s: Seq<char>, lo: int, hi: int)
    requires
        0 <= lo,
        hi <= s.len(),
    ensures
        last_ws_in(s, lo, hi) matches Some(w) ==> lo <= w < hi && is_ws(s[w]) && forall|k: int|
            w < k < hi ==> !is_ws(s[k]),
        last_ws_in(s, lo, hi) is None ==> forall|k: int| lo <= k < hi ==> !is_ws(s[k]),
    decreases hi - lo,
{
    if hi > lo && !is_ws(s[hi - 1]) {
        lemma_last_ws(s, lo, hi - 1);
    }
}

/// A row always makes progress and never runs past the text; it holds at
/// most `VIRTUAL_ROW_BYTES` bytes plus the rest of the character that
/// crosses that limit; and a row that ends before the text does ends just
/// after whitespace, or holds none.
pub proof fn lemma_chunk_end(s: Seq<char>, i: int)
    requires
        0 <= i < s.len(),
    ensures
        i < chunk_end(s, i) <= s.len(),
        byte_offset(s, chunk_end(s, i)) <= byte_offset(s, i) + VIRTUAL_ROW_BYTES + 3,
        chunk_end(s, i) < s.len() ==> (is_ws(s[chunk_end(s, i) - 1]) || forall|k: int|
            i <= k < chunk_end(s, i) ==> !is_ws(#[trigger] s[k])),
{
    let total = utf8_len(s) as int;
    let start = byte_offset(s, i) as int;
    let limit = if start + VIRTUAL_ROW_BYTES < total { start + VIRTUAL_ROW_BYTES } else { total };
    lemma_byte_offset_mono(s, i, s.len() as int);
    lemma_byte_offset_step(s, i);
    lemma_byte_offset_ends(s);
    lemma_widths(s[i]);
    lemma_round_up(s, i, limit);
    lemma_last_ws(s, i, round_up_char(s, i, limit));
    if i + 1 <= s.len() {
        lemma_byte_offset_mono(s, i + 1, s.len() as int);
    }
    let lc = round_up_char(s, i, limit);
    assert(lc > i);
    lemma_byte_offset_step(s, lc - 1);
    lemma_widths(s[lc - 1]);
    lemma_byte_offset_mono(s, chunk_end(s, i), lc);
}

/// Character indices at which the rows of `s[i..]` start.
pub open spec fn chunk_starts(s: Seq<char>, i: int) -> Seq<int>
    decreases s.len() - i,
{
    if i < 0 || i >= s.len() {
        Seq::empty()
    } else {
        proof {
            lemma_chunk_end(s, i);
        }
        seq![i] + chunk_starts(s, chunk_end(s, i))
    }
}

/// The rows that an inline text is split into.
pub open spec fn split_view(t: InlineTextView) -> Seq<InlineTextView> {
    if utf8_len(t.text) <= VIRTUAL_ROW_BYTES {
        seq![t]
    } else {
        chunk_starts(t.text, 0).map_values(|i: int| slice_view(t, i, chunk_end(t.text, i)))
    }
}

/// The code lines that a code block's text is split into.
pub open spec fn split_lines_view(text: Seq<char>) -> Seq<Seq<char>> {
    if text.len() == 0 {
        seq![Seq::<char>::empty()]
    } else {
        split_view(InlineTextView { text: text, highlights: Seq::empty() }).map_values(
            |t: InlineTextView| t.text,
        )
    }
}

/// A copy of a highlight.
pub fn copy_highlight(h: &InlineHighlight) -> (r: InlineHighlight)
    ensures
        r == *h,
{
    InlineHighlight { range: h.range.start..h.range.end, style: h.style }
}

impl InlineText {
    /// A copy of this text with the same highlights.
    pub fn duplicate(&self) -> (r: InlineText)
        ensures
            r@ == self@,
    {
        let mut hs: Vec<InlineHighlight> = Vec::new();
        let mut i: usize = 0;
        while i < self.highlights.len()
            invariant
                0 <= i <= self.highlights.len(),
                hs@ == self.highlights@.take(i as int),
            decreases self.highlights.len() - i,
        {
            hs.push(copy_highlight(&self.highlights[i]));
            assert(self.highlights@.take(i + 1) =~= self.highlights@.take(i as int).push(self.highlights@[i as int]));
            i = i + 1;
        }
        assert(self.highlights@.take(self.highlights@.len() as int) =~= self.highlights@);
        InlineText { text: self.text.clone(), highlights: hs }
    }
}

/// The part of `inline` between the characters `i` and `j` (byte offsets
/// `range`), with its highlights clipped and shifted to the slice.
fn slice_inline(inline: &InlineText, chars: &Vec<char>, range: std::ops::Range<usize>, i: usize, j: usize) -> (r: InlineText)
    requires
        chars@ == inline.text@,
        0 <= i <= j <= chars@.len(),
        range.start == byte_offset(chars@, i as int),
        range.end == byte_offset(chars@, j as int),
    ensures
        r@ == slice_view(inline@, i as int, j as int),
{
    let mut hs: Vec<InlineHighlight> = Vec::new();
    let mut k: usize = 0;
    let ghost all = inline.highlights@;
    proof {
        lemma_byte_offset_mono(chars@, i as int, j as int);
    }
    while k < inline.highlights.len()
        invariant
            0 <= k <= all.len(),
            all == inline.highlights@,
            range.start <= range.end,
            hs@ == clip_highlights(all.take(k as int), range.start as int, range.end as int),
        decreases all.len() - k,
    {
        let h = &inline.highlights[k];
        let start = if h.range.start >= range.start { h.range.start } else { range.start };
        let end = if h.range.end <= range.end { h.range.end } else { range.end };
        assert(all.take(k + 1).drop_last() =~= all.take(k as int));
        if start < end {
            hs.push(InlineHighlight { range: (start - range.start)..(end - range.start), style: h.style });
        }
        k = k + 1;
    }
    assert(all.take(all.len() as int) =~= all);
    proof {
        lemma_byte_offset_mono(chars@, i as int, j as int);
    }
    InlineText { text: string_from_chars(chars, i, j), highlights: hs }
}

/// Splits an inline text into rows of at most about `VIRTUAL_ROW_BYTES`
/// bytes, preferring to break after whitespace and never inside a character.
fn split_inline(inline: &InlineText) -> (r: Vec<InlineText>)
    ensures
        texts_view(r@) == split_view(inline@),
{
    let total = str_len(inline.text.as_str());
    if total <= VIRTUAL_ROW_BYTES {
        let mut r: Vec<InlineText> = Vec::new();
        r.push(inline.duplicate());
        assert(texts_view(r@) =~= seq![inline@]);
        return r;
    }
    let chars = chars_of(inline.text.as_str());
    let ghost s = chars@;
    let ghost t = inline@;
    let ghost f = |c: int| slice_view(t, c, chunk_end(s, c));
    let n = chars.len();
    let mut chunks: Vec<InlineText> = Vec::new();
    let mut i: usize = 0;
    let mut start: usize = 0;
    proof {
        lemma_byte_offset_ends(s);
        assert(texts_view(chunks@) + chunk_starts(s, 0).map_values(f) =~= chunk_starts(s, 0).map_values(f));
    }
    while i < n
        invariant
            chars@ == s,
            s == inline.text@,
            t == inline@,
            n == s.len(),
            total == utf8_len(s),
            total > VIRTUAL_ROW_BYTES,
            f == (|c: int| slice_view(t, c, chunk_end(s, c))),
            0 <= i <= n,
            start == byte_offset(s, i as int),
            texts_view(chunks@) + chunk_starts(s, i as int).map_values(f) == chunk_starts(s, 0).map_values(f),
        decreases n - i,
    {
        proof {
            lemma_byte_offset_mono(s, i as int, n as int);
            lemma_byte_offset_ends(s);
            lemma_chunk_end(s, i as int);
        }
        let limit = if total - start > VIRTUAL_ROW_BYTES { start + VIRTUAL_ROW_BYTES } else { total };
        let mut j = i;
        let mut b = start;
        while j < n && b < limit
            invariant
                chars@ == s,
                n == s.len(),
                total == utf8_len(s),
                limit <= total,
                i <= j <= n,
                b == byte_offset(s, j as int),
                round_up_char(s, i as int, limit as int) == round_up_char(s, j as int, limit as int),
            decreases n - j,
        {
            proof {
                lemma_byte_offset_step(s, j as int);
                lemma_byte_offset_mono(s, j + 1, n as int);
                lemma_byte_offset_ends(s);
            }
            b = b + char_utf8_width(chars[j]);
            j = j + 1;
        }
        let mut end_c = j;
        let mut end_b = b;
        if j < n {
            let mut k = j;
            let mut eb = b;
            while k > i && !is_whitespace(chars[k - 1])
                invariant
                    chars@ == s,
                    n == s.len(),
                    i <= k <= j <= n,
                    eb == byte_offset(s, k as int),
                    last_ws_in(s, i as int, j as int) == last_ws_in(s, i as int, k as int),
                decreases k,
            {
                proof {
                    lemma_byte_offset_step(s, k - 1);
                }
                eb = eb - char_utf8_width(chars[k - 1]);
                k = k - 1;
            }
            if k > i {
                end_c = k;
                end_b = eb;
            }
        }
        assert(end_c == chunk_end(s, i as int));
        let chunk = slice_inline(inline, &chars, start..end_b, i, end_c);
        proof {
            assert(chunk_starts(s, i as int) =~= seq![i as int] + chunk_starts(s, end_c as int));
            assert(chunk_starts(s, i as int).map_values(f) =~= seq![f(i as int)] + chunk_starts(s, end_c as int).map_values(f));
        }
        let ghost before = texts_view(chunks@);
        chunks.push(chunk);
        assert(texts_view(chunks@) =~= before.push(f(i as int)));
        i = end_c;
        start = end_b;
    }
    proof {
        assert(chunk_starts(s, n as int) =~= Seq::<int>::empty());
        assert(texts_view(chunks@) =~= chunk_starts(s, 0).map_values(f));
    }
    chunks
}

/// Splits code text into rows; empty code still yields one (empty) row.
fn split_lines(text: &String) -> (r: Vec<String>)
    ensures
        r@.map_values(|l: String| l@) == split_lines_view(text@),
{
    if str_len(text.as_str()) == 0 {
        let mut r: Vec<String> = Vec::new();
        r.push(String::new());
        proof {
            crate::text::lemma_len_le_utf8_len(text@);
        }
        assert(r@.map_values(|l: String| l@) =~= seq![Seq::<char>::empty()]);
        return r;
    }
    proof {
        if text@.len() == 0 {
            assert(text@ =~= Seq::<char>::empty());
        }
    }
    let inline = InlineText { text: text.clone(), highlights: Vec::new() };
    assert(inline@ == InlineTextView { text: text@, highlights: Seq::empty() });
    let parts = split_inline(&inline);
    let mut r: Vec<String> = Vec::new();
    let mut k: usize = 0;
    while k < parts.len()
        invariant
            0 <= k <= parts.len(),
            r@.len() == k,
            forall|x: int| 0 <= x < k ==> #[trigger] r@[x]@ == parts@[x].text@,
        decreases parts.len() - k,
    {
        r.push(parts[k].text.clone());
        k = k + 1;
    }
    assert(r@.map_values(|l: String| l@) =~= texts_view(parts@).map_values(|t: InlineTextView| t.text));
    r
}

/// Number of groups of `VIRTUAL_ROW_ITEMS` needed for `n` items.
pub open spec fn group_count(n: nat) -> nat {
    n / (VIRTUAL_ROW_ITEMS as nat) + if n % (VIRTUAL_ROW_ITEMS as nat) > 0 { 1nat } else { 0nat }
}

/// Groups of at most `VIRTUAL_ROW_ITEMS` consecutive items.
pub open spec fn item_groups<T>(items: Seq<T>) -> Seq<Seq<T>> {
    Seq::new(
        group_count(items.len()),
        |m: int|
            items.subrange(
                m * VIRTUAL_ROW_ITEMS,
                if (m + 1) * VIRTUAL_ROW_ITEMS < items.len() {
                    (m + 1) * VIRTUAL_ROW_ITEMS
                } else {
                    items.len() as int
                },
            ),
    )
}

/// A render row holding `block`, continuing the previous row when `index > 0`.
pub open spec fn row(block: BlockView, index: int) -> RenderBlockView {
    RenderBlockView { block: block, continuation: index > 0, syntax_highlights: Seq::empty() }
}

/// The render rows of one block.
pub open spec fn virtual_rows(b: BlockView) -> Seq<RenderBlockView> {
    match b {
        BlockView::Paragraph(t) => split_view(t).map(|i: int, c: InlineTextView| row(BlockView::Paragraph(c), i)),
        BlockView::Raw(t) => split_view(t).map(|i: int, c: InlineTextView| row(BlockView::Raw(c), i)),
        BlockView::Code { language, text } => split_lines_view(text).map(
            |i: int, c: Seq<char>| row(BlockView::Code { language: language, text: c }, i),
        ),
        BlockView::List(items) => item_groups(items).map(|i: int, g: Seq<InlineTextView>| row(BlockView::List(g), i)),
        BlockView::Quote(items) => item_groups(items).map(|i: int, g: Seq<InlineTextView>| row(BlockView::Quote(g), i)),
        BlockView::Table(items) => item_groups(items).map(|i: int, g: Seq<InlineTextView>| row(BlockView::Table(g), i)),
        _ => seq![row(b, 0)],
    }
}

/// The render rows of a whole document, block after block.
pub open spec fn document_rows(blocks: Seq<BlockView>) -> Seq<RenderBlockView>
    decreases blocks.len(),
{
    if blocks.len() == 0 {
        Seq::empty()
    } else {
        document_rows(blocks.drop_last()) + virtual_rows(blocks.last())
    }
}

/// Copies of a vector of inline texts.
fn duplicate_texts(v: &Vec<InlineText>, from: usize, to: usize) -> (r: Vec<InlineText>)
    requires
        from <= to <= v.len(),
    ensures
        texts_view(r@) == texts_view(v@).subrange(from as int, to as int),
{
    let mut r: Vec<InlineText> = Vec::new();
    let mut k = from;
    while k < to
        invariant
            from <= k <= to <= v.len(),
            r@.len() == k - from,
            forall|x: int| 0 <= x < k - from ==> #[trigger] r@[x]@ == v@[from + x]@,
        decreases to - k,
    {
        r.push(v[k].duplicate());
        k = k + 1;
    }
    assert(texts_view(r@) =~= texts_view(v@).subrange(from as int, to as int));
    r
}

/// Which container kind a group of items is rebuilt as.
#[derive(Clone, Copy)]
enum ItemsKind {
    List,
    Quote,
    Table,
}

fn group_rows(items: &Vec<InlineText>, kind: ItemsKind) -> (r: Vec<MarkdownRenderBlock>)
    ensures
        render_view(r@) == item_groups(texts_view(items@)).map(
            |i: int, g: Seq<InlineTextView>|
                row(
                    match kind {
                        ItemsKind::List => BlockView::List(g),
                        ItemsKind::Quote => BlockView::Quote(g),
                        ItemsKind::Table => BlockView::Table(g),
                    },
                    i,
                ),
        ),
{
    let ghost iv = texts_view(items@);
    let ghost mk = |i: int, g: Seq<InlineTextView>|
        row(
            match kind {
                ItemsKind::List => BlockView::List(g),
                ItemsKind::Quote => BlockView::Quote(g),
                ItemsKind::Table => BlockView::Table(g),
            },
            i,
        );
    let ghost groups = item_groups(iv);
    let mut r: Vec<MarkdownRenderBlock> = Vec::new();
    let n = items.len();
    let count = n / VIRTUAL_ROW_ITEMS + if n % VIRTUAL_ROW_ITEMS > 0 { 1 } else { 0 };
    assert(count == groups.len());
    let mut m: usize = 0;
    while m < count
        invariant
            iv == texts_view(items@),
            groups == item_groups(iv),
            n == items.len(),
            count == groups.len(),
            mk == (|i: int, g: Seq<InlineTextView>|
                row(
                    match kind {
                        ItemsKind::List => BlockView::List(g),
                        ItemsKind::Quote => BlockView::Quote(g),
                        ItemsKind::Table => BlockView::Table(g),
                    },
                    i,
                )),
            m <= count,
            r@.len() == m,
            forall|x: int| 0 <= x < m ==> #[trigger] r@[x]@ == mk(x, groups[x]),
        decreases count - m,
    {
        assert(m * VIRTUAL_ROW_ITEMS < n) by (nonlinear_arith)
            requires
                m < count,
                count == n / 16 + if n % 16 > 0 { 1int } else { 0int },
                VIRTUAL_ROW_ITEMS == 16,
        ;
        let from = m * VIRTUAL_ROW_ITEMS;
        let to = if n - from > VIRTUAL_ROW_ITEMS { from + VIRTUAL_ROW_ITEMS } else { n };
        let group = duplicate_texts(items, from, to);
        let block = match kind {
            ItemsKind::List => MarkdownBlock::List(group),
            ItemsKind::Quote => MarkdownBlock::Quote(group),
            ItemsKind::Table => MarkdownBlock::Table(group),
        };
        proof {
            assert(groups[m as int] =~= iv.subrange(from as int, to as int));
            assert(block@ == mk(m as int, groups[m as int]).block);
        }
        r.push(MarkdownRenderBlock { block: block, continuation: m > 0, syntax_highlights: Vec::new() });
        assert(r@[m as int]@ == mk(m as int, groups[m as int]));
        m = m + 1;
    }
    assert(render_view(r@) =~= groups.map(mk));
    r
}

/// The render rows of one block (see `virtual_rows`).
fn virtualize_block(block: &MarkdownBlock) -> (r: Vec<MarkdownRenderBlock>)
    ensures
        render_view(r@) == virtual_rows(block@),
{
    match block {
        MarkdownBlock::Paragraph(inline) | MarkdownBlock::Raw(inline) => {
            let is_paragraph = match block {
                MarkdownBlock::Paragraph(_) => true,
                _ => false,
            };
            let parts = split_inline(inline);
            let ghost pv = texts_view(parts@);
            let ghost mk = |i: int, c: InlineTextView|
                row(if is_paragraph { BlockView::Paragraph(c) } else { BlockView::Raw(c) }, i);
            let mut r: Vec<MarkdownRenderBlock> = Vec::new();
            let mut k: usize = 0;
            let n = parts.len();
            let mut rest = parts;
            while rest.len() > 0
                invariant
                    k + rest@.len() == pv.len(),
                    pv.len() == n,
                    mk == (|i: int, c: InlineTextView|
                        row(if is_paragraph { BlockView::Paragraph(c) } else { BlockView::Raw(c) }, i)),
                    texts_view(rest@) == pv.skip(k as int),
                    r@.len() == k,
                    forall|x: int| 0 <= x < k ==> #[trigger] r@[x]@ == mk(x, pv[x]),
                decreases rest.len(),
            {
                let ghost old_rest = rest@;
                assert(texts_view(old_rest)[0] == pv.skip(k as int)[0]);
                let part = rest.remove(0);
                assert(part@ == pv[k as int]);
                assert(texts_view(rest@) =~= pv.skip(k + 1)) by {
                    assert(rest@ =~= old_rest.remove(0));
                    assert forall|x: int| 0 <= x < rest@.len() implies texts_view(rest@)[x] == pv.skip(k + 1)[x] by {
                        assert(texts_view(old_rest)[x + 1] == pv.skip(k as int)[x + 1]);
                    }
                }
                let b = if is_paragraph { MarkdownBlock::Paragraph(part) } else { MarkdownBlock::Raw(part) };
                r.push(MarkdownRenderBlock { block: b, continuation: k > 0, syntax_highlights: Vec::new() });
                k = k + 1;
            }
            assert(render_view(r@) =~= pv.map(mk));
            r
        },
        MarkdownBlock::Code { language, text } => {
            let lines = split_lines(text);
            let ghost lv = lines@.map_values(|l: String| l@);
            let ghost lang = match language {
                Some(l) => Some(l@),
                None => None,
            };
            let ghost mk = |i: int, c: Seq<char>| row(BlockView::Code { language: lang, text: c }, i);
            let mut r: Vec<MarkdownRenderBlock> = Vec::new();
            let mut k: usize = 0;
            while k < lines.len()
                invariant
                    0 <= k <= lines.len(),
                    lv == lines@.map_values(|l: String| l@),
                    mk == (|i: int, c: Seq<char>| row(BlockView::Code { language: lang, text: c }, i)),
                    lang == (match language {
                        Some(l) => Some(l@),
                        None => None::<Seq<char>>,
                    }),
                    r@.len() == k,
                    forall|x: int| 0 <= x < k ==> #[trigger] r@[x]@ == mk(x, lv[x]),
                decreases lines.len() - k,
            {
                let lang_copy = match language {
                    Some(l) => Some(l.clone()),
                    None => None,
                };
                let code = MarkdownBlock::Code { language: lang_copy, text: lines[k].clone() };
                assert(code@ == mk(k as int, lv[k as int]).block);
                r.push(MarkdownRenderBlock { block: code, continuation: k > 0, syntax_highlights: Vec::new() });
                assert(r@[k as int]@ == mk(k as int, lv[k as int]));
                k = k + 1;
            }
            assert(render_view(r@) =~= lv.map(mk));
            r
        },
        MarkdownBlock::List(items) => group_rows(items, ItemsKind::List),
        MarkdownBlock::Quote(items) => group_rows(items, ItemsKind::Quote),
        MarkdownBlock::Table(items) => group_rows(items, ItemsKind::Table),
        MarkdownBlock::Heading { level, content } => {
            let mut r: Vec<MarkdownRenderBlock> = Vec::new();
            r.push(MarkdownRenderBlock {
                block: MarkdownBlock::Heading { level: *level, content: content.duplicate() },
                continuation: false,
                syntax_highlights: Vec::new(),
            });
            assert(render_view(r@) =~= seq![row(block@, 0)]);
            r
        },
        MarkdownBlock::Rule => {
            let mut r: Vec<MarkdownRenderBlock> = Vec::new();
            r.push(MarkdownRenderBlock { block: MarkdownBlock::Rule, continuation: false, syntax_highlights: Vec::new() });
            assert(render_view(r@) =~= seq![row(block@, 0)]);
            r
        },
    }
}

/// Splits every block of a document into bounded render rows, in order.
pub fn virtualize_document(document: &MarkdownDocument) -> (rows: Vec<MarkdownRenderBlock>)
    ensures
        render_view(rows@) == document_rows(document@),
{
    let ghost bv = document@;
    let mut rows: Vec<MarkdownRenderBlock> = Vec::new();
    let mut k: usize = 0;
    while k < document.blocks.len()
        invariant
            0 <= k <= document.blocks.len(),
            bv == document@,
            render_view(rows@) == document_rows(bv.take(k as int)),
        decreases document.blocks.len() - k,
    {
        let mut more = virtualize_block(&document.blocks[k]);
        let ghost before = render_view(rows@);
        let ghost added = render_view(more@);
        rows.append(&mut more);
        proof {
            assert(bv.take(k + 1).drop_last() =~= bv.take(k as int));
            assert(render_view(rows@) =~= before + added);
        }
        k = k + 1;
    }
    assert(bv.take(bv.len() as int) =~= bv);
    rows
}

/// The characters of a sequence of inline texts, one after another.
pub open spec fn concat_texts(v: Seq<InlineTextView>) -> Seq<char>
    decreases v.len(),
{
    if v.len() == 0 {
        Seq::empty()
    } else {
        v[0].text + concat_texts(v.drop_first())
    }
}

proof fn lemma_chunks_concat(t: InlineTextView, i: int)
    requires
        0 <= i <= t.text.len(),
    ensures
        concat_texts(
            chunk_starts(t.text, i).map_values(|c: int| slice_view(t, c, chunk_end(t.text, c))),
        ) =~= t.text.subrange(i, t.text.len() as int),
    decreases t.text.len() - i,
{
    let s = t.text;
    let f = |c: int| slice_view(t, c, chunk_end(s, c));
    if i < s.len() {
        lemma_chunk_end(s, i);
        let e = chunk_end(s, i);
        lemma_chunks_concat(t, e);
        assert(chunk_starts(s, i) =~= seq![i] + chunk_starts(s, e));
        assert(chunk_starts(s, i).map_values(f).drop_first() =~= chunk_starts(s, e).map_values(f));
        assert(s.subrange(i, s.len() as int) =~= s.subrange(i, e) + s.subrange(e, s.len() as int));
    } else {
        assert(chunk_starts(s, i) =~= Seq::<int>::empty());
    }
}

/// Splitting a text into render rows neither drops nor repeats text: the rows,
/// read one after another, spell the original text.
pub proof fn lemma_split_keeps_text(t: InlineTextView)
    ensures
        concat_texts(split_view(t)) == t.text,
{
    if utf8_len(t.text) <= VIRTUAL_ROW_BYTES {
        assert(seq![t].drop_first() =~= Seq::<InlineTextView>::empty());
        assert(concat_texts(Seq::<InlineTextView>::empty()) =~= Seq::<char>::empty());
        assert(concat_texts(seq![t]) == t.text + concat_texts(seq![t].drop_first()));
        assert(t.text + Seq::<char>::empty() =~= t.text);
    } else {
        lemma_chunks_concat(t, 0);
        assert(t.text.subrange(0, t.text.len() as int) =~= t.text);
    }
}

/// The rows of a paragraph hold its whole text, in order, and only the first
/// row starts the paragraph.
pub proof fn lemma_paragraph_rows(t: InlineTextView)
    ensures
        virtual_rows(BlockView::Paragraph(t)).len() == split_view(t).len(),
        forall|i: int|
            0 <= i < split_view(t).len() ==> #[trigger] virtual_rows(BlockView::Paragraph(t))[i]
                == row(BlockView::Paragraph(split_view(t)[i]), i),
        concat_texts(split_view(t)) == t.text,
{
    lemma_split_keeps_text(t);
}


/// Every render row of a block but the first continues the one before it.
pub proof fn lemma_rows_continue(b: BlockView, i: int)
    requires
        0 <= i < virtual_rows(b).len(),
    ensures
        virtual_rows(b)[i].continuation == (i > 0),
        virtual_rows(b)[i].syntax_highlights.len() == 0,
{
}


/// A run of highlighted code: its length in bytes and its style.
#[derive(Clone, Copy, Debug, PartialEq, Eq)]
pub struct StyledSpan {
    pub len: usize,
    pub color: Option<[u8; 3]>,
    pub bold: bool,
    pub italic: bool,
    pub underline: bool,
}

/// The highlights of consecutive spans that start at byte `base`: one per
/// non-empty span, over the bytes it covers.
pub open spec fn span_highlights(spans: Seq<StyledSpan>, base: int) -> Seq<(int, int, StyledSpan)>
    decreases spans.len(),
{
    if spans.len() == 0 {
        Seq::empty()
    } else {
        let s = spans[0];
        let rest = span_highlights(spans.drop_first(), base + s.len);
        if s.len > 0 {
            seq![(base, base + s.len, s)] + rest
        } else {
            rest
        }
    }
}

/// Total length of spans.
pub open spec fn spans_len(spans: Seq<StyledSpan>) -> int
    decreases spans.len(),
{
    if spans.len() == 0 {
        0
    } else {
        spans[0].len + spans_len(spans.drop_first())
    }
}

/// Ranges, colors and modifiers of highlights.
pub open spec fn syntax_view(v: Seq<MarkdownSyntaxHighlight>) -> Seq<(int, int, StyledSpan)> {
    v.map_values(|h: MarkdownSyntaxHighlight| (h.range.start as int, h.range.end as int, StyledSpan {
        len: (h.range.end - h.range.start) as usize,
        color: h.color,
        bold: h.bold,
        italic: h.italic,
        underline: h.underline,
    }))
}

proof fn lemma_spans_len_nonneg(spans: Seq<StyledSpan>)
    ensures
        spans_len(spans) >= 0,
    decreases spans.len(),
{
    if spans.len() > 0 {
        lemma_spans_len_nonneg(spans.drop_first());
    }
}

proof fn lemma_spans_len_split(spans: Seq<StyledSpan>, k: int)
    requires
        0 <= k <= spans.len(),
    ensures
        spans_len(spans) == spans_len(spans.take(k)) + spans_len(spans.skip(k)),
        spans_len(spans.take(k)) >= 0,
    decreases k,
{
    if k > 0 {
        lemma_spans_len_split(spans.drop_first(), k - 1);
        assert(spans.drop_first().take(k - 1) =~= spans.take(k).drop_first());
        assert(spans.drop_first().skip(k - 1) =~= spans.skip(k));
    } else {
        assert(spans.skip(0) =~= spans);
    }
}

/// The syntax highlights of a code line from the styled spans that the
/// highlighter returns for it, in order (see `span_highlights`).
pub fn syntax_highlights_from_spans(spans: &Vec<StyledSpan>) -> (r: Vec<MarkdownSyntaxHighlight>)
    requires
        spans_len(spans@) <= usize::MAX,
    ensures
        syntax_view(r@) == span_highlights(spans@, 0),
{
    let mut r: Vec<MarkdownSyntaxHighlight> = Vec::new();
    let mut offset: usize = 0;
    let mut k: usize = 0;
    let ghost mut done: Seq<(int, int, StyledSpan)> = Seq::empty();
    assert(spans@.skip(0) =~= spans@);
    assert(spans@.take(0) =~= Seq::<StyledSpan>::empty());
    while k < spans.len()
        invariant
            0 <= k <= spans@.len(),
            spans_len(spans@) <= usize::MAX,
            offset == spans_len(spans@.take(k as int)),
            syntax_view(r@) == done,
            done + span_highlights(spans@.skip(k as int), offset as int) == span_highlights(spans@, 0),
        decreases spans.len() - k,
    {
        let s = spans[k];
        proof {
            lemma_spans_len_split(spans@, k + 1);
            lemma_spans_len_split(spans@.take(k + 1), k as int);
            assert(spans@.take(k + 1).take(k as int) =~= spans@.take(k as int));
            assert(spans@.take(k + 1).skip(k as int) =~= seq![s]);
            assert(seq![s].drop_first() =~= Seq::<StyledSpan>::empty());
            assert(spans_len(Seq::<StyledSpan>::empty()) == 0);
            assert(seq![s][0] == s);
            assert(spans_len(seq![s]) == s.len + spans_len(seq![s].drop_first()));
            lemma_spans_len_nonneg(spans@.skip(k + 1));
            assert(spans@.skip(k as int)[0] == s);
            assert(spans@.skip(k as int).drop_first() =~= spans@.skip(k + 1));
        }
        let start = offset;
        offset = offset + s.len;
        if s.len > 0 {
            let ghost old_r = r@;
            r.push(MarkdownSyntaxHighlight {
                range: start..offset,
                color: s.color,
                bold: s.bold,
                italic: s.italic,
                underline: s.underline,
            });
            proof {
                assert(syntax_view(r@) =~= syntax_view(old_r).push((start as int, offset as int, s)));
                let nd = done.push((start as int, offset as int, s));
                assert(nd + span_highlights(spans@.skip(k + 1), offset as int) =~= done + span_highlights(
                    spans@.skip(k as int),
                    start as int,
                ));
                done = nd;
            }
        }
        k = k + 1;
    }
    assert(spans@.skip(k as int) =~= Seq::<StyledSpan>::empty());
    assert(done + Seq::<(int, int, StyledSpan)>::empty() =~= done);
    r
}

/// What the code highlighter is asked to do for one render block, as the
/// blocks are walked in order.
#[derive(Debug, Clone, PartialEq, Eq)]
pub enum HighlightAction {
    /// Not code, and no code block is open: nothing to do.
    Skip,
    /// Not code, right after code: the highlighter ends its block.
    EndBlock,
    /// Code that starts a block: the highlighter begins a block in this
    /// language, then highlights the line.
    BeginAndHighlight(Option<String>),
    /// Code that continues the open block: the highlighter highlights the
    /// line.
    Highlight,
}

/// One step of highlighting the code blocks of a rendered document: given
/// whether a code block is open and the next render block, whether one is
/// open afterwards and what the highlighter does. A code block begins anew
/// unless it continues the open one; any other block ends an open one. Once
/// the walk is done, a block still open is ended.
pub fn code_highlight_step(in_code_block: bool, block: &MarkdownRenderBlock) -> (r: (bool, HighlightAction))
    ensures
        match block.block {
            MarkdownBlock::Code { language, .. } => {
                &&& r.0
                &&& if !block.continuation || !in_code_block {
                    r.1 matches HighlightAction::BeginAndHighlight(l) && opt_view(l) == opt_view(language)
                } else {
                    r.1 is Highlight
                }
            },
            _ => !r.0 && if in_code_block {
                r.1 is EndBlock
            } else {
                r.1 is Skip
            },
        },
{
    match &block.block {
        MarkdownBlock::Code { language, .. } => {
            if !block.continuation || !in_code_block {
                (true, HighlightAction::BeginAndHighlight(clone_opt(language)))
            } else {
                (true, HighlightAction::Highlight)
            }
        },
        _ => {
            if in_code_block {
                (false, HighlightAction::EndBlock)
            } else {
                (false, HighlightAction::Skip)
            }
        },
    }
}

/// Stores the highlights of a code line, from the styled spans that the
/// highlighter returned for it; the block is otherwise unchanged.
pub fn set_line_highlights(block: &mut MarkdownRenderBlock, spans: &Vec<StyledSpan>)
    requires
        spans_len(spans@) <= usize::MAX,
    ensures
        final(block).block == old(block).block,
        final(block).continuation == old(block).continuation,
        syntax_view(final(block).syntax_highlights@) == span_highlights(spans@, 0),
{
    block.syntax_highlights = syntax_highlights_from_spans(spans);
}

} // verus!
