//! The transcript: its items and parts, text selection across rendered
//! blocks, the markdown cache of a part and how many rows a part takes.
use vstd::prelude::*;
use crate::markdown::MarkdownRenderBlock;
use crate::markdown_blocks::StreamingMarkdown;
use crate::text::{
    char_index_at, chars_of, decimal, decimal_string, is_boundary, push_char, push_str, str_eq, str_len, string_from_chars, trim,
    trim_bounds, utf8_len,
};

verus! {

/// A position in the transcript text: message, rendered block and byte
/// offset inside the block.
#[derive(Clone, Copy, Debug, PartialEq, Eq, PartialOrd, Ord)]
pub struct TranscriptSelectionPoint {
    pub message_index: usize,
    pub block_index: usize,
    pub offset: usize,
}

/// A selection between an anchor and a focus point, in either order.
#[derive(Clone, Debug, PartialEq, Eq)]
pub struct TranscriptSelection {
    pub start: TranscriptSelectionPoint,
    pub end: TranscriptSelectionPoint,
}

/// `a <= b`, comparing message, block and offset in turn.
pub open spec fn point_le(a: TranscriptSelectionPoint, b: TranscriptSelectionPoint) -> bool {
    a.message_index < b.message_index || (a.message_index == b.message_index && (a.block_index
        < b.block_index || (a.block_index == b.block_index && a.offset <= b.offset)))
}

/// Block `(m, b)` comes before block `(m2, b2)`.
pub open spec fn block_lt(m: int, b: int, m2: int, b2: int) -> bool {
    m < m2 || (m == m2 && b < b2)
}

/// The byte range of block `(m, b)` (of `len` bytes) that the selection
/// covers, if any: from the selection's start in its first block, to its
/// end in its last block, the whole text of the blocks between; clamped
/// to the text, and none when empty.
pub open spec fn selection_range(sel: TranscriptSelection, m: int, b: int, len: int) -> Option<(int, int)> {
    let (s, e) = if point_le(sel.start, sel.end) { (sel.start, sel.end) } else { (sel.end, sel.start) };
    if block_lt(m, b, s.message_index as int, s.block_index as int) || block_lt(
        e.message_index as int,
        e.block_index as int,
        m,
        b,
    ) {
        None
    } else {
        let rs = if m == s.message_index && b == s.block_index { s.offset as int } else { 0 };
        let re = if m == e.message_index && b == e.block_index { e.offset as int } else { len };
        let rs2 = if rs < len { rs } else { len };
        let re2 = if re < len { re } else { len };
        if rs2 < re2 {
            Some((rs2, re2))
        } else {
            None
        }
    }
}

fn point_le_exec(a: &TranscriptSelectionPoint, b: &TranscriptSelectionPoint) -> (r: bool)
    ensures
        r == point_le(*a, *b),
{
    a.message_index < b.message_index || (a.message_index == b.message_index && (a.block_index
        < b.block_index || (a.block_index == b.block_index && a.offset <= b.offset)))
}

/// The part of a rendered block that the selection covers (see
/// `selection_range`).
pub fn selection_range_for(
    selection: &TranscriptSelection,
    message_index: usize,
    block_index: usize,
    text_len: usize,
) -> (r: Option<std::ops::Range<usize>>)
    ensures
        match r {
            Some(range) => selection_range(*selection, message_index as int, block_index as int, text_len as int)
                == Some((range.start as int, range.end as int)),
            None => selection_range(*selection, message_index as int, block_index as int, text_len as int) is None,
        },
{
    let (start, end) = if point_le_exec(&selection.start, &selection.end) {
        (selection.start, selection.end)
    } else {
        (selection.end, selection.start)
    };
    let before_start = message_index < start.message_index || (message_index == start.message_index
        && block_index < start.block_index);
    let after_end = end.message_index < message_index || (end.message_index == message_index && end.block_index
        < block_index);
    if before_start || after_end {
        return None;
    }
    let range_start = if message_index == start.message_index && block_index == start.block_index {
        start.offset
    } else {
        0
    };
    let range_end = if message_index == end.message_index && block_index == end.block_index {
        end.offset
    } else {
        text_len
    };
    let a = if range_start < text_len { range_start } else { text_len };
    let b = if range_end < text_len { range_end } else { text_len };
    if a < b {
        Some(a..b)
    } else {
        None
    }
}

/// A rendered text block that can be selected: where it is and its text.
#[derive(Clone, Debug, PartialEq, Eq)]
pub struct TranscriptTextEntry {
    pub message_index: usize,
    pub block_index: usize,
    pub text: String,
}

/// Entry `i` comes no later than entry `j` in transcript order.
pub open spec fn entry_le(es: Seq<TranscriptTextEntry>, i: int, j: int) -> bool {
    es[i].message_index < es[j].message_index || (es[i].message_index == es[j].message_index
        && es[i].block_index <= es[j].block_index)
}

/// `order` with index `e` placed after every index that comes no later.
pub open spec fn insert_in_order(es: Seq<TranscriptTextEntry>, order: Seq<int>, e: int) -> Seq<int>
    decreases order.len(),
{
    if order.len() == 0 {
        seq![e]
    } else if entry_le(es, order.last(), e) {
        order.push(e)
    } else {
        insert_in_order(es, order.drop_last(), e).push(order.last())
    }
}

/// The indices of the first `n` entries in transcript order, entries of
/// one block keeping their order (a stable sort by message and block).
pub open spec fn transcript_order(es: Seq<TranscriptTextEntry>, n: int) -> Seq<int>
    decreases n,
{
    if n <= 0 {
        Seq::empty()
    } else {
        insert_in_order(es, transcript_order(es, n - 1), n - 1)
    }
}

/// The selected part of an entry's text, if any.
pub open spec fn selected_piece(sel: TranscriptSelection, e: TranscriptTextEntry) -> Option<Seq<char>> {
    match selection_range(sel, e.message_index as int, e.block_index as int, utf8_len(e.text@) as int) {
        Some((a, b)) => Some(
            e.text@.subrange(char_index_at(e.text@, a), char_index_at(e.text@, b)),
        ),
        None => None,
    }
}

/// The selected text of the entries at `order`: their selected parts,
/// one per line.
pub open spec fn joined_selection(sel: TranscriptSelection, es: Seq<TranscriptTextEntry>, order: Seq<int>) -> Seq<
    char,
>
    decreases order.len(),
{
    if order.len() == 0 {
        Seq::empty()
    } else {
        let before = joined_selection(sel, es, order.drop_last());
        match selected_piece(sel, es[order.last()]) {
            Some(piece) => if before.len() == 0 {
                piece
            } else {
                before + seq!['\n'] + piece
            },
            None => before,
        }
    }
}

/// Every selected range falls between characters of its entry's text.
pub open spec fn selection_on_boundaries(sel: TranscriptSelection, es: Seq<TranscriptTextEntry>) -> bool {
    forall|i: int|
        0 <= i < es.len() ==> match #[trigger] selection_range(
            sel,
            es[i].message_index as int,
            es[i].block_index as int,
            utf8_len(es[i].text@) as int,
        ) {
            Some((a, b)) => is_boundary(es[i].text@, a) && is_boundary(es[i].text@, b),
            None => true,
        }
}

/// Inserts index `e` into `order` after every index that comes no later.
fn insert_index(es: &Vec<TranscriptTextEntry>, order: &mut Vec<usize>, e: usize)
    requires
        e < es@.len(),
        forall|k: int| 0 <= k < old(order)@.len() ==> #[trigger] old(order)@[k] < es@.len(),
    ensures
        final(order)@.map_values(|k: usize| k as int) == insert_in_order(
            es@,
            old(order)@.map_values(|k: usize| k as int),
            e as int,
        ),
        forall|k: int| 0 <= k < final(order)@.len() ==> #[trigger] final(order)@[k] < es@.len(),
{
    let ghost s = order@.map_values(|k: usize| k as int);
    let mut pos = order.len();
    assert(s.take(pos as int) =~= s);
    assert(s.skip(pos as int) =~= Seq::<int>::empty());
    while pos > 0 && !(es[order[pos - 1]].message_index < es[e].message_index || (es[order[pos - 1]].message_index
        == es[e].message_index && es[order[pos - 1]].block_index <= es[e].block_index))
        invariant
            order@.map_values(|k: usize| k as int) == s,
            0 <= pos <= s.len(),
            forall|k: int| 0 <= k < order@.len() ==> #[trigger] order@[k] < es@.len(),
            e < es@.len(),
            insert_in_order(es@, s, e as int) == insert_in_order(es@, s.take(pos as int), e as int) + s.skip(
                pos as int,
            ),
        decreases pos,
    {
        let ghost t = s.take(pos as int);
        proof {
            assert(t.last() == order@[pos - 1] as int);
            assert(t.drop_last() =~= s.take(pos - 1));
            assert(s.skip(pos - 1) =~= seq![t.last()] + s.skip(pos as int));
            assert(insert_in_order(es@, s.take(pos - 1), e as int).push(t.last()) + s.skip(pos as int)
                =~= insert_in_order(es@, s.take(pos - 1), e as int) + s.skip(pos - 1));
        }
        pos = pos - 1;
    }
    proof {
        let t = s.take(pos as int);
        if pos > 0 {
            assert(t.last() == order@[pos - 1] as int);
        } else {
            assert(t =~= Seq::<int>::empty());
        }
        assert(insert_in_order(es@, t, e as int) =~= t.push(e as int));
    }
    order.insert(pos, e);
    proof {
        assert(order@.map_values(|k: usize| k as int) =~= s.take(pos as int).push(e as int) + s.skip(pos as int));
    }
}

/// The text the selection covers across rendered blocks: the selected part
/// of each block, in transcript order, one per line; `None` when nothing is
/// selected.
pub fn transcript_selection_text(selection: &TranscriptSelection, entries: &Vec<TranscriptTextEntry>) -> (r: Option<
    String,
>)
    requires
        selection_on_boundaries(*selection, entries@),
    ensures
        ({
            let text = joined_selection(*selection, entries@, transcript_order(entries@, entries@.len() as int));
            match r {
                Some(t) => t@ == text && text.len() > 0,
                None => text.len() == 0,
            }
        }),
{
    let mut order: Vec<usize> = Vec::new();
    let mut i: usize = 0;
    while i < entries.len()
        invariant
            0 <= i <= entries@.len(),
            order@.map_values(|k: usize| k as int) == transcript_order(entries@, i as int),
            forall|k: int| 0 <= k < order@.len() ==> #[trigger] order@[k] < entries@.len(),
        decreases entries@.len() - i,
    {
        insert_index(entries, &mut order, i);
        i = i + 1;
    }
    let ghost full = order@.map_values(|k: usize| k as int);
    let mut selected = String::new();
    let mut any = false;
    let mut j: usize = 0;
    assert(full.take(0) =~= Seq::<int>::empty());
    while j < order.len()
        invariant
            0 <= j <= order@.len(),
            full == order@.map_values(|k: usize| k as int),
            forall|k: int| 0 <= k < order@.len() ==> #[trigger] order@[k] < entries@.len(),
            selection_on_boundaries(*selection, entries@),
            selected@ == joined_selection(*selection, entries@, full.take(j as int)),
            any == (selected@.len() > 0),
        decreases order@.len() - j,
    {
        let entry = &entries[order[j]];
        proof {
            assert(full.take(j + 1).drop_last() =~= full.take(j as int));
            assert(full.take(j + 1).last() == order@[j as int] as int);
        }
        let n = str_len(entry.text.as_str());
        match selection_range_for(selection, entry.message_index, entry.block_index, n) {
            Some(range) => {
                let chars = chars_of(entry.text.as_str());
                proof {
                    let ix = order@[j as int] as int;
                    assert(entries@[ix] == *entry);
                    assert(selection_range(
                        *selection,
                        entries@[ix].message_index as int,
                        entries@[ix].block_index as int,
                        utf8_len(entries@[ix].text@) as int,
                    ) == Some((range.start as int, range.end as int)));
                    crate::text_field::lemma_boundaries_ordered(entry.text@, range.start as int, range.end as int);
                }
                let a = crate::text_field::char_index_of(&chars, range.start);
                let b = crate::text_field::char_index_of(&chars, range.end);
                if any {
                    push_char(&mut selected, '\n');
                }
                crate::markdown_parse::push_chars(&mut selected, &chars, a, b);
                any = true;
            },
            None => {},
        }
        j = j + 1;
    }
    proof {
        assert(full.take(order@.len() as int) =~= full);
    }
    if any {
        Some(selected)
    } else {
        None
    }
}

/// Who wrote a transcript message.
#[derive(Clone, Copy, Debug, PartialEq, Eq)]
pub enum TranscriptRole {
    User,
    Assistant,
}

/// One part of a transcript message.
#[derive(Clone, Debug, PartialEq, Eq)]
pub enum TranscriptPart {
    Text(String),
    Reasoning(String),
    ToolCall {
        tool_name: String,
        call_id: String,
        input: String,
        output: Option<String>,
        error: Option<String>,
        diff: Option<String>,
    },
    File(String),
    Compaction { auto: bool },
}

/// A transcript message.
#[derive(Clone, Debug, PartialEq, Eq)]
pub struct TranscriptItem {
    pub role: TranscriptRole,
    pub text: String,
    pub parts: Vec<TranscriptPart>,
}

/// Index of the last user message.
pub open spec fn last_user_index(items: Seq<TranscriptItem>) -> Option<int>
    decreases items.len(),
{
    if items.len() == 0 {
        None
    } else if items.last().role == TranscriptRole::User {
        Some(items.len() - 1)
    } else {
        last_user_index(items.drop_last())
    }
}

/// The latest user prompt: the last user message, trimmed, unless it is
/// blank.
pub open spec fn latest_prompt(items: Seq<TranscriptItem>) -> Option<Seq<char>> {
    match last_user_index(items) {
        Some(i) => if trim(items[i].text@).len() > 0 {
            Some(trim(items[i].text@))
        } else {
            None
        },
        None => None,
    }
}

pub fn latest_user_prompt(transcript: &[TranscriptItem]) -> (r: Option<String>)
    ensures
        match r {
            Some(s) => latest_prompt(transcript@) == Some(s@),
            None => latest_prompt(transcript@) is None,
        },
{
    let mut i = transcript.len();
    assert(transcript@.take(i as int) =~= transcript@);
    while i > 0
        invariant
            0 <= i <= transcript@.len(),
            last_user_index(transcript@) == last_user_index(transcript@.take(i as int)),
        decreases i,
    {
        proof {
            assert(transcript@.take(i as int).drop_last() =~= transcript@.take(i - 1));
            assert(transcript@.take(i as int).last() == transcript@[i - 1]);
        }
        let is_user = match transcript[i - 1].role {
            TranscriptRole::User => true,
            TranscriptRole::Assistant => false,
        };
        if is_user {
            let v = chars_of(transcript[i - 1].text.as_str());
            let (a, b) = trim_bounds(&v, 0, v.len());
            assert(v@.subrange(0, v@.len() as int) =~= v@);
            if a < b {
                return Some(string_from_chars(&v, a, b));
            } else {
                return None;
            }
        }
        i = i - 1;
    }
    None
}

/// The rendered markdown of a transcript part, with the source it was
/// rendered from and, while streaming, the parser state.
pub struct CachedMarkdown {
    pub source: String,
    pub source_identity: usize,
    pub source_len: usize,
    pub render_blocks: Vec<MarkdownRenderBlock>,
    pub streaming: Option<StreamingMarkdown>,
}

/// The cache still holds `source`: same length, and the same allocation
/// or the same text.
pub fn cached_markdown_source_unchanged(cached: &CachedMarkdown, source: &str, source_identity: usize) -> (b: bool)
    ensures
        b == (cached.source_len == utf8_len(source@) && (cached.source_identity == source_identity
            || cached.source@ == source@)),
{
    cached.source_len == str_len(source) && (cached.source_identity == source_identity || str_eq(
        cached.source.as_str(),
        source,
    ))
}

/// How many rows a part with `blocks` rendered blocks takes: text (or a
/// message without parts) and expanded reasoning one per block, at least
/// one; anything else one.
pub open spec fn part_block_count(part: Option<TranscriptPart>, blocks: nat, reasoning_expanded: bool) -> nat {
    match part {
        None | Some(TranscriptPart::Text(_)) => if blocks > 0 {
            blocks
        } else {
            1
        },
        Some(TranscriptPart::Reasoning(_)) => if reasoning_expanded && blocks > 0 {
            blocks
        } else {
            1
        },
        Some(_) => 1,
    }
}

/// How many rendered rows a part takes: text (or a message without
/// parts) and expanded reasoning take one per rendered block, at least
/// one; anything else one.
pub fn transcript_part_block_count(
    part: Option<&TranscriptPart>,
    cached: &CachedMarkdown,
    reasoning_expanded: bool,
) -> (n: usize)
    ensures
        n == part_block_count(
            match part {
                Some(q) => Some(*q),
                None => None,
            },
            cached.render_blocks@.len(),
            reasoning_expanded,
        ),
{
    let blocks = if cached.render_blocks.len() > 0 {
        cached.render_blocks.len()
    } else {
        1
    };
    match part {
        None => blocks,
        Some(TranscriptPart::Text(_)) => blocks,
        Some(TranscriptPart::Reasoning(_)) => if reasoning_expanded {
            blocks
        } else {
            1
        },
        Some(_) => 1,
    }
}

/// The key under which a part's expanded state is kept.
pub fn chat_part_key(message_index: usize, part_index: usize) -> (r: String)
    ensures
        r@ == "chat-part-"@ + decimal(message_index as nat) + "-"@ + decimal(part_index as nat),
{
    let mut s = "chat-part-".to_owned();
    let m = decimal_string(message_index as u64);
    push_str(&mut s, m.as_str());
    push_str(&mut s, "-");
    let p = decimal_string(part_index as u64);
    push_str(&mut s, p.as_str());
    s
}

/// Rows of the activity panel: a header and one row per subagent, and a
/// header and one row per todo, for each list that is not empty.
pub fn activity_row_count(subagent_count: usize, todo_count: usize) -> (n: usize)
    requires
        subagent_count + todo_count + 2 <= usize::MAX,
    ensures
        n == (if subagent_count > 0 { subagent_count + 1 } else { 0 }) + (if todo_count > 0 {
            todo_count + 1
        } else {
            0
        }),
{
    (if subagent_count > 0 {
        subagent_count + 1
    } else {
        0
    }) + if todo_count > 0 {
        todo_count + 1
    } else {
        0
    }
}


/// One row of the transcript list: a rendered block of a part of a message.
#[derive(Clone, Copy, Debug, PartialEq, Eq)]
pub struct TranscriptRenderRow {
    pub message_index: usize,
    pub part_index: usize,
    pub block_index: usize,
}

/// The rows of one part: one per rendered block.
pub open spec fn part_rows(m: usize, p: usize, count: nat) -> Seq<TranscriptRenderRow> {
    Seq::new(count, |b: int| TranscriptRenderRow { message_index: m, part_index: p, block_index: b as usize })
}

/// The rows of a message whose parts take the given numbers of rows (none
/// for a part that has no cache entry yet).
pub open spec fn message_rows(m: usize, counts: Seq<Option<nat>>) -> Seq<TranscriptRenderRow>
    decreases counts.len(),
{
    if counts.len() == 0 {
        Seq::empty()
    } else {
        message_rows(m, counts.drop_last()) + match counts.last() {
            Some(c) => part_rows(m, (counts.len() - 1) as usize, c),
            None => Seq::empty(),
        }
    }
}

/// The rows of a message: for each part that has a cached rendering, one
/// row per rendered block.
pub fn transcript_rows_for_message(message_index: usize, block_counts: &Vec<Option<usize>>) -> (r: Vec<TranscriptRenderRow>)
    ensures
        r@ == message_rows(message_index, block_counts@.map_values(|c: Option<usize>| match c {
            Some(n) => Some(n as nat),
            None => None,
        })),
{
    let ghost counts = block_counts@.map_values(|c: Option<usize>| match c {
        Some(n) => Some(n as nat),
        None => None,
    });
    let mut r: Vec<TranscriptRenderRow> = Vec::new();
    let mut p: usize = 0;
    assert(r@ =~= message_rows(message_index, counts.take(0)));
    while p < block_counts.len()
        invariant
            0 <= p <= block_counts.len(),
            counts == block_counts@.map_values(|c: Option<usize>| match c {
                Some(n) => Some(n as nat),
                None => None,
            }),
            r@ == message_rows(message_index, counts.take(p as int)),
        decreases block_counts.len() - p,
    {
        let ghost before = r@;
        proof {
            assert(counts.take(p + 1).drop_last() =~= counts.take(p as int));
        }
        match block_counts[p] {
            Some(count) => {
                let mut b: usize = 0;
                while b < count
                    invariant
                        0 <= b <= count,
                        r@ == before + part_rows(message_index, p, b as nat),
                    decreases count - b,
                {
                    r.push(TranscriptRenderRow { message_index: message_index, part_index: p, block_index: b });
                    assert(part_rows(message_index, p, (b + 1) as nat) =~= part_rows(message_index, p, b as nat).push(
                        TranscriptRenderRow { message_index: message_index, part_index: p, block_index: b },
                    ));
                    b = b + 1;
                }
            },
            None => {
                assert(before + Seq::<TranscriptRenderRow>::empty() =~= before);
            },
        }
        p = p + 1;
    }
    assert(counts.take(p as int) =~= counts);
    r
}

/// Index of the first row of `rows` whose message passes `bound` (at or
/// after `bound` when `strict` is false, after it when true), or the row
/// count.
pub open spec fn first_row_from(rows: Seq<TranscriptRenderRow>, bound: int, strict: bool) -> int
    decreases rows.len(),
{
    if rows.len() == 0 {
        0
    } else if (strict && rows[0].message_index > bound) || (!strict && rows[0].message_index >= bound) {
        0
    } else {
        1 + first_row_from(rows.drop_first(), bound, strict)
    }
}

proof fn lemma_first_row_from(rows: Seq<TranscriptRenderRow>, bound: int, strict: bool)
    ensures
        0 <= first_row_from(rows, bound, strict) <= rows.len(),
    decreases rows.len(),
{
    if rows.len() > 0 {
        lemma_first_row_from(rows.drop_first(), bound, strict);
    }
}

fn first_row_index(rows: &Vec<TranscriptRenderRow>, bound: usize, strict: bool) -> (r: usize)
    ensures
        r == first_row_from(rows@, bound as int, strict),
{
    let mut i: usize = 0;
    assert(rows@.skip(0) =~= rows@);
    while i < rows.len()
        invariant
            0 <= i <= rows@.len(),
            first_row_from(rows@, bound as int, strict) == i + first_row_from(rows@.skip(i as int), bound as int, strict),
        decreases rows.len() - i,
    {
        assert(rows@.skip(i as int)[0] == rows@[i as int]);
        assert(rows@.skip(i as int).drop_first() =~= rows@.skip(i + 1));
        let m = rows[i].message_index;
        if (strict && m > bound) || (!strict && m >= bound) {
            return i;
        }
        i = i + 1;
    }
    i
}

/// The transcript rows after the messages `start..=end` are rendered anew:
/// the rows before the first row of `start`, the new rows, and the rows
/// after the last row of `end`.
pub open spec fn spliced_rows(
    old: Seq<TranscriptRenderRow>,
    start: int,
    end: int,
    replacement: Seq<TranscriptRenderRow>,
) -> Seq<TranscriptRenderRow> {
    let a = first_row_from(old, start, false);
    let b = first_row_from(old, end, true);
    old.take(a) + replacement + old.skip(b)
}

/// Replaces the rows of messages `message_start..=message_end` (see
/// `spliced_rows`).
pub fn splice_transcript_rows(
    old: &Vec<TranscriptRenderRow>,
    message_start: usize,
    message_end: usize,
    replacement: &Vec<TranscriptRenderRow>,
) -> (r: Vec<TranscriptRenderRow>)
    ensures
        r@ == spliced_rows(old@, message_start as int, message_end as int, replacement@),
{
    let a = first_row_index(old, message_start, false);
    let b = first_row_index(old, message_end, true);
    proof {
        lemma_first_row_from(old@, message_start as int, false);
        lemma_first_row_from(old@, message_end as int, true);
    }
    let mut r: Vec<TranscriptRenderRow> = Vec::new();
    let mut i: usize = 0;
    while i < a
        invariant
            0 <= i <= a <= old@.len(),
            r@ == old@.take(i as int),
        decreases a - i,
    {
        r.push(old[i]);
        assert(old@.take(i + 1) =~= old@.take(i as int).push(old@[i as int]));
        i = i + 1;
    }
    let mut j: usize = 0;
    while j < replacement.len()
        invariant
            0 <= j <= replacement@.len(),
            r@ == old@.take(a as int) + replacement@.take(j as int),
        decreases replacement.len() - j,
    {
        r.push(replacement[j]);
        assert(replacement@.take(j + 1) =~= replacement@.take(j as int).push(replacement@[j as int]));
        assert(old@.take(a as int) + replacement@.take(j + 1) =~= (old@.take(a as int) + replacement@.take(
            j as int,
        )).push(replacement@[j as int]));
        j = j + 1;
    }
    assert(replacement@.take(j as int) =~= replacement@);
    let mut k = b;
    let ghost prefix = r@;
    assert(old@.skip(b as int).take(0) =~= Seq::<TranscriptRenderRow>::empty());
    while k < old.len()
        invariant
            b <= k <= old@.len(),
            r@ == prefix + old@.skip(b as int).take(k - b),
        decreases old.len() - k,
    {
        r.push(old[k]);
        assert(old@.skip(b as int).take(k + 1 - b) =~= old@.skip(b as int).take(k - b).push(old@[k as int]));
        assert(prefix + old@.skip(b as int).take(k + 1 - b) =~= (prefix + old@.skip(b as int).take(k - b)).push(
            old@[k as int],
        ));
        k = k + 1;
    }
    assert(old@.skip(b as int).take(k - b) =~= old@.skip(b as int));
    r
}

/// New rows only extend the old ones: there are at least as many, and they
/// start with the old rows.
pub fn rows_only_appended(old: &Vec<TranscriptRenderRow>, new: &Vec<TranscriptRenderRow>) -> (b: bool)
    ensures
        b == (new@.len() >= old@.len() && new@.take(old@.len() as int) == old@),
{
    if new.len() < old.len() {
        return false;
    }
    let mut i: usize = 0;
    while i < old.len()
        invariant
            0 <= i <= old@.len(),
            old@.len() <= new@.len(),
            forall|k: int| 0 <= k < i ==> new@[k] == old@[k],
        decreases old.len() - i,
    {
        let x = new[i];
        let y = old[i];
        if x.message_index != y.message_index || x.part_index != y.part_index || x.block_index != y.block_index {
            assert(new@.take(old@.len() as int)[i as int] != old@[i as int]);
            return false;
        }
        i = i + 1;
    }
    assert(new@.take(old@.len() as int) =~= old@);
    true
}

} // verus!
