//! The rendered markdown of every transcript part, kept in step with the
//! transcript: a part is parsed again only when its text changed, and a
//! streaming part only parses what was appended.
use vstd::prelude::*;
use crate::markdown::{document_rows, render_view, virtualize_document};
use crate::markdown_blocks::{document_view, markdown_blocks, parse_document, streamed_blocks, StreamingMarkdown};
use crate::text::{chars_of, decimal, has_prefix, starts_with_at, str_eq, str_len, string_from_chars, utf8_len};
use crate::transcript::{
    cached_markdown_source_unchanged, chat_part_key, message_rows, part_block_count, rows_only_appended,
    splice_transcript_rows, spliced_rows, transcript_part_block_count, transcript_rows_for_message, CachedMarkdown,
    TranscriptItem, TranscriptPart, TranscriptRenderRow,
};

verus! {

/// How many parts a message has for rendering: its parts, or one (its text)
/// when it has none.
pub open spec fn part_count(item: TranscriptItem) -> nat {
    if item.parts@.len() == 0 {
        1
    } else {
        item.parts@.len()
    }
}

/// The markdown source of part `p`: the message text for a message without
/// parts, the text of a text or reasoning part, and none for other parts.
pub open spec fn source_of(item: TranscriptItem, p: int) -> Option<Seq<char>> {
    if item.parts@.len() == 0 {
        Some(item.text@)
    } else {
        match item.parts@[p] {
            TranscriptPart::Text(t) => Some(t@),
            TranscriptPart::Reasoning(t) => Some(t@),
            _ => None,
        }
    }
}

/// The cache entry holds `source`: same length, and the same allocation or
/// the same text.
pub open spec fn holds_source(c: CachedMarkdown, source: Seq<char>, identity: usize) -> bool {
    c.source_len == utf8_len(source) && (c.source_identity == identity || c.source@ == source)
}

/// The entry holds nothing.
pub open spec fn is_blank(c: CachedMarkdown) -> bool {
    c.source@.len() == 0 && c.source_identity == 0 && c.source_len == 0 && c.render_blocks@.len() == 0
}

/// Bringing the entry up to date changes it: its part has a source the entry
/// does not hold, or no source while the entry holds something.
pub open spec fn entry_changes(c: CachedMarkdown, item: TranscriptItem, p: int, identity: usize) -> bool {
    match source_of(item, p) {
        Some(s) => !holds_source(c, s, identity),
        None => !is_blank(c),
    }
}

/// The entry was streaming and the new source extends what it had parsed.
pub open spec fn extends_stream(c: CachedMarkdown, source: Seq<char>) -> bool {
    c.streaming is Some && has_prefix(source, c.source@)
}

/// `new` is `old` brought up to date with part `p`: blanked for a part
/// without source; kept when it holds the source; otherwise holding the
/// source, its identity and length, and the blocks of the parsed source:
/// when the entry was streaming and the source extends it, its stream is fed
/// what was appended as one more chunk and the blocks are those streamed from
/// all its chunks; otherwise a fresh stream is fed the whole source, and the
/// blocks are those of the source parsed at once.
pub open spec fn entry_updated(
    old: CachedMarkdown,
    new: CachedMarkdown,
    item: TranscriptItem,
    p: int,
    identity: usize,
) -> bool {
    match source_of(item, p) {
        None => is_blank(new) && new.streaming == old.streaming,
        Some(s) => if holds_source(old, s, identity) {
            new == old
        } else {
            &&& new.source@ == s
            &&& new.source_identity == identity
            &&& new.source_len == utf8_len(s)
            &&& new.streaming is Some
            &&& if extends_stream(old, s) {
                &&& new.streaming.unwrap().chunks() == old.streaming.unwrap().chunks().push(
                    s.skip(old.source@.len() as int),
                )
                &&& render_view(new.render_blocks@) == document_rows(
                    document_view(streamed_blocks(new.streaming.unwrap().chunks())),
                )
            } else {
                &&& new.streaming.unwrap().chunks() == seq![s]
                &&& render_view(new.render_blocks@) == document_rows(document_view(markdown_blocks(s)))
            }
        },
    }
}

/// A cache entry holding nothing.
fn blank_entry() -> (c: CachedMarkdown)
    ensures
        is_blank(c),
        c.streaming is None,
{
    CachedMarkdown {
        source: String::new(),
        source_identity: 0,
        source_len: 0,
        render_blocks: Vec::new(),
        streaming: None,
    }
}

/// The markdown source of part `p` of `item` (see `source_of`).
fn part_source(item: &TranscriptItem, p: usize) -> (r: Option<&String>)
    requires
        p < part_count(*item),
    ensures
        match r {
            Some(s) => source_of(*item, p as int) == Some(s@),
            None => source_of(*item, p as int) is None,
        },
{
    if item.parts.len() == 0 {
        Some(&item.text)
    } else {
        match &item.parts[p] {
            TranscriptPart::Text(t) => Some(t),
            TranscriptPart::Reasoning(t) => Some(t),
            _ => None,
        }
    }
}

/// Brings the entry of part `p` up to date (see `entry_updated`); returns
/// whether it changed (see `entry_changes`).
fn sync_entry(cached: &mut CachedMarkdown, item: &TranscriptItem, p: usize, identity: usize) -> (changed: bool)
    requires
        p < part_count(*item),
    ensures
        changed == entry_changes(*old(cached), *item, p as int, identity),
        entry_updated(*old(cached), *final(cached), *item, p as int, identity),
{
    let source = match part_source(item, p) {
        Some(s) => s,
        None => {
            let changed = cached.source_identity != 0 || cached.source_len != 0 || str_len(cached.source.as_str())
                != 0 || cached.render_blocks.len() != 0;
            proof {
                crate::text::lemma_len_le_utf8_len(cached.source@);
                if cached.source@.len() == 0 {
                    assert(utf8_len(cached.source@) == 0);
                }
            }
            cached.source = String::new();
            cached.source_identity = 0;
            cached.source_len = 0;
            cached.render_blocks = Vec::new();
            return changed;
        },
    };
    if cached_markdown_source_unchanged(cached, source.as_str(), identity) {
        return false;
    }
    let chars = chars_of(source.as_str());
    let appends = cached.streaming.is_some() && starts_with_at(&chars, 0, cached.source.as_str());
    proof {
        assert(chars@.skip(0) =~= chars@);
    }
    let source_len = str_len(source.as_str());
    if appends {
        let from = chars_of(cached.source.as_str()).len();
        let mut streaming = match cached.streaming.take() {
            Some(s) => s,
            None => StreamingMarkdown::new(),
        };
        let delta = string_from_chars(&chars, from, chars.len());
        let document = streaming.append(delta.as_str());
        let blocks = virtualize_document(&document);
        *cached = CachedMarkdown {
            source: source.clone(),
            source_identity: identity,
            source_len,
            render_blocks: blocks,
            streaming: Some(streaming),
        };
    } else {
        let mut streaming = StreamingMarkdown::new();
        let document = parse_document(source.as_str());
        let _ = streaming.append(source.as_str());
        let blocks = virtualize_document(&document);
        *cached = CachedMarkdown {
            source: source.clone(),
            source_identity: identity,
            source_len,
            render_blocks: blocks,
            streaming: Some(streaming),
        };
    }
    true
}

/// Bringing a fresh (blank) entry up to date changes it: its part has a
/// non-empty source.
pub open spec fn fresh_changes(item: TranscriptItem, p: int) -> bool {
    match source_of(item, p) {
        Some(s) => s.len() > 0,
        None => false,
    }
}

/// `new` is a fresh entry brought up to date with part `p`: blank without
/// a non-empty source, else holding the parsed source and a stream fed the
/// whole source as its one chunk.
pub open spec fn fresh_updated(new: CachedMarkdown, item: TranscriptItem, p: int, identity: usize) -> bool {
    match source_of(item, p) {
        Some(s) => if s.len() == 0 {
            is_blank(new) && new.streaming is None
        } else {
            &&& new.source@ == s
            &&& new.source_identity == identity
            &&& new.source_len == utf8_len(s)
            &&& new.streaming is Some
            &&& new.streaming.unwrap().chunks() == seq![s]
            &&& render_view(new.render_blocks@) == document_rows(document_view(markdown_blocks(s)))
        },
        None => is_blank(new) && new.streaming is None,
    }
}

/// Part `p` changes when the message's entries `olds` are brought up to date.
pub open spec fn changes_in(olds: Seq<CachedMarkdown>, p: int, item: TranscriptItem, identity: usize) -> bool {
    if p < olds.len() {
        entry_changes(olds[p], item, p, identity)
    } else {
        fresh_changes(item, p)
    }
}

/// `new` is entry `p` of `olds` (or a fresh one) brought up to date.
pub open spec fn updated_in(
    olds: Seq<CachedMarkdown>,
    new: CachedMarkdown,
    p: int,
    item: TranscriptItem,
    identity: usize,
) -> bool {
    if p < olds.len() {
        entry_updated(olds[p], new, item, p, identity)
    } else {
        fresh_updated(new, item, p, identity)
    }
}

/// A message's rendering changes: its number of parts changed, or one of its
/// parts does.
pub open spec fn message_changes(olds: Seq<CachedMarkdown>, item: TranscriptItem, ids: Seq<usize>) -> bool {
    olds.len() != part_count(item) || exists|p: int|
        0 <= p < part_count(item) && #[trigger] changes_in(olds, p, item, ids[p])
}

/// Brings the entries of one message up to date, one per part; returns
/// whether anything changed.
fn sync_message(parts: &mut Vec<CachedMarkdown>, item: &TranscriptItem, ids: &Vec<usize>) -> (changed: bool)
    requires
        ids@.len() == part_count(*item),
    ensures
        changed == message_changes(old(parts)@, *item, ids@),
        final(parts)@.len() == part_count(*item),
        forall|p: int|
            0 <= p < part_count(*item) ==> updated_in(old(parts)@, #[trigger] final(parts)@[p], p, *item, ids@[p]),
{
    let ghost olds = parts@;
    let count = if item.parts.len() == 0 {
        1
    } else {
        item.parts.len()
    };
    let mut changed = parts.len() != count;
    parts.truncate(count);
    while parts.len() < count
        invariant
            count == part_count(*item),
            parts@.len() <= count,
            forall|p: int| 0 <= p < parts@.len() && p < olds.len() ==> #[trigger] parts@[p] == olds[p],
            forall|p: int|
                0 <= p < parts@.len() && p >= olds.len() ==> is_blank(#[trigger] parts@[p]) && parts@[p].streaming is None,
            parts@.len() >= (if olds.len() < count { olds.len() as int } else { count as int }),
        decreases count - parts@.len(),
    {
        parts.push(blank_entry());
    }
    let mut p: usize = 0;
    while p < count
        invariant
            count == part_count(*item),
            ids@.len() == count,
            parts@.len() == count,
            0 <= p <= count,
            forall|q: int| p <= q < count && q < olds.len() ==> #[trigger] parts@[q] == olds[q],
            forall|q: int|
                p <= q < count && q >= olds.len() ==> is_blank(#[trigger] parts@[q]) && parts@[q].streaming is None,
            forall|q: int| 0 <= q < p ==> updated_in(olds, #[trigger] parts@[q], q, *item, ids@[q]),
            changed == (olds.len() != count || exists|q: int| 0 <= q < p && #[trigger] changes_in(olds, q, *item, ids@[q])),
        decreases count - p,
    {
        let ghost before = parts@[p as int];
        let entry_changed = sync_entry(&mut parts[p], item, p, ids[p]);
        proof {
            if p as int >= olds.len() {
                fresh_entry_facts(before, parts@[p as int], *item, p as int, ids@[p as int]);
            }
            assert(entry_changed == changes_in(olds, p as int, *item, ids@[p as int]));
        }
        let ghost was = changed;
        if entry_changed {
            changed = true;
        }
        proof {
            if !was && !entry_changed && olds.len() == count {
                assert forall|q: int| 0 <= q < p + 1 implies !#[trigger] changes_in(olds, q, *item, ids@[q]) by {
                    if q < p {
                        assert(!changes_in(olds, q, *item, ids@[q]));
                    }
                }
            }
        }
        p = p + 1;
    }
    changed
}

/// What bringing a blank entry up to date does, in terms of the part alone.
proof fn fresh_entry_facts(before: CachedMarkdown, after: CachedMarkdown, item: TranscriptItem, p: int, identity: usize)
    requires
        is_blank(before),
        before.streaming is None,
        entry_updated(before, after, item, p, identity),
    ensures
        entry_changes(before, item, p, identity) == fresh_changes(item, p),
        fresh_updated(after, item, p, identity),
{
    match source_of(item, p) {
        Some(s) => {
            crate::text::lemma_len_le_utf8_len(s);
            if s.len() == 0 {
                assert(utf8_len(s) == 0);
                assert(before.source@ =~= s);
            }
        },
        None => {},
    }
}

/// Part `p` of message `m` is reasoning whose expanded state is on.
pub open spec fn reasoning_expanded(item: TranscriptItem, m: int, p: int, expanded: Seq<String>) -> bool {
    &&& p < item.parts@.len()
    &&& item.parts@[p] is Reasoning
    &&& exists|j: int|
        0 <= j < expanded.len() && #[trigger] expanded[j]@ == "chat-part-"@ + decimal(m as nat) + "-"@ + decimal(
            p as nat,
        )
}

/// The part at `p`, if the message has one there.
pub open spec fn part_at(item: TranscriptItem, p: int) -> Option<TranscriptPart> {
    if 0 <= p < item.parts@.len() {
        Some(item.parts@[p])
    } else {
        None
    }
}

/// How many rows part `p` of message `m` takes, if it has a cache entry.
pub open spec fn cached_block_count(
    cache: Seq<Vec<CachedMarkdown>>,
    m: int,
    item: TranscriptItem,
    p: int,
    expanded: Seq<String>,
) -> Option<nat> {
    if m < cache.len() && p < cache[m]@.len() {
        Some(
            part_block_count(
                part_at(item, p),
                cache[m]@[p].render_blocks@.len(),
                reasoning_expanded(item, m, p, expanded),
            ),
        )
    } else {
        None
    }
}

/// The row counts of the parts of message `m` (see `cached_block_count`).
pub open spec fn counts_for(cache: Seq<Vec<CachedMarkdown>>, m: int, item: TranscriptItem, expanded: Seq<String>) -> Seq<
    Option<nat>,
> {
    Seq::new(part_count(item), |p: int| cached_block_count(cache, m, item, p, expanded))
}

/// The rows of messages `a..b`.
pub open spec fn rows_between(
    cache: Seq<Vec<CachedMarkdown>>,
    transcript: Seq<TranscriptItem>,
    expanded: Seq<String>,
    a: int,
    b: int,
) -> Seq<TranscriptRenderRow>
    decreases b - a,
{
    if b <= a {
        Seq::empty()
    } else {
        rows_between(cache, transcript, expanded, a, b - 1) + message_rows(
            (b - 1) as usize,
            counts_for(cache, b - 1, transcript[b - 1], expanded),
        )
    }
}

/// Whether `key` is among `keys`.
fn contains_key(keys: &Vec<String>, key: &str) -> (b: bool)
    ensures
        b == exists|j: int| 0 <= j < keys@.len() && #[trigger] keys@[j]@ == key@,
{
    let mut j: usize = 0;
    while j < keys.len()
        invariant
            0 <= j <= keys@.len(),
            forall|k: int| 0 <= k < j ==> #[trigger] keys@[k]@ != key@,
        decreases keys@.len() - j,
    {
        if str_eq(keys[j].as_str(), key) {
            return true;
        }
        j = j + 1;
    }
    false
}

/// The entries cached for message `i` before an update (none for a new
/// message).
pub open spec fn entries_before(old: Seq<Vec<CachedMarkdown>>, i: int) -> Seq<CachedMarkdown> {
    if i < old.len() {
        old[i]@
    } else {
        Seq::empty()
    }
}

/// What an update of the cache found: whether anything changed, and the
/// first and last message whose rendering changed.
#[derive(Clone, Copy, Debug, PartialEq, Eq)]
pub struct CacheSync {
    pub changed: bool,
    pub changed_messages: Option<(usize, usize)>,
}

/// An entry brought up to date holds its part: bringing it up to date again
/// changes nothing.
pub proof fn lemma_updated_entry_settles(
    olds: Seq<CachedMarkdown>,
    new: CachedMarkdown,
    p: int,
    item: TranscriptItem,
    identity: usize,
)
    requires
        updated_in(olds, new, p, item, identity),
    ensures
        !entry_changes(new, item, p, identity),
{
    match source_of(item, p) {
        Some(s) => {
            if s.len() == 0 {
                assert(utf8_len(s) == 0);
                if is_blank(new) {
                    assert(new.source@ =~= s);
                }
            }
        },
        None => {},
    }
}

/// What a cache brought up to date holds, part by part: the entry of a part
/// with markdown source records that source's length, and the entry of any
/// other part is blank: no source, length 0, identity 0 and no rendered
/// blocks.
pub proof fn lemma_synced_entries(
    old: Seq<Vec<CachedMarkdown>>,
    new: Seq<Vec<CachedMarkdown>>,
    transcript: Seq<TranscriptItem>,
    ids: Seq<Vec<usize>>,
)
    requires
        ids.len() == transcript.len(),
        new.len() == transcript.len(),
        forall|i: int| 0 <= i < transcript.len() ==> (#[trigger] new[i])@.len() == part_count(transcript[i]),
        forall|i: int, p: int|
            0 <= i < transcript.len() && 0 <= p < part_count(transcript[i]) ==> updated_in(
                entries_before(old, i),
                #[trigger] new[i]@[p],
                p,
                transcript[i],
                ids[i]@[p],
            ),
    ensures
        forall|i: int, p: int|
            0 <= i < transcript.len() && 0 <= p < part_count(transcript[i]) ==> match source_of(
                transcript[i],
                p,
            ) {
                Some(s) => (#[trigger] new[i]@[p]).source_len == utf8_len(s),
                None => is_blank(new[i]@[p]),
            },
{
    assert forall|i: int, p: int| 0 <= i < transcript.len() && 0 <= p < part_count(transcript[i]) implies match source_of(
        transcript[i],
        p,
    ) {
        Some(s) => (#[trigger] new[i]@[p]).source_len == utf8_len(s),
        None => is_blank(new[i]@[p]),
    } by {
        assert(updated_in(entries_before(old, i), new[i]@[p], p, transcript[i], ids[i]@[p]));
        match source_of(transcript[i], p) {
            Some(s) => {
                if s.len() == 0 {
                    assert(utf8_len(s) == 0);
                }
            },
            None => {},
        }
    }
}

/// Bringing the cache up to date twice in a row, with the same transcript
/// and source identities, changes nothing the second time: every message
/// the update leaves behind reports no change.
pub proof fn lemma_sync_settles(
    old: Seq<Vec<CachedMarkdown>>,
    new: Seq<Vec<CachedMarkdown>>,
    transcript: Seq<TranscriptItem>,
    ids: Seq<Vec<usize>>,
)
    requires
        ids.len() == transcript.len(),
        new.len() == transcript.len(),
        forall|i: int| 0 <= i < transcript.len() ==> (#[trigger] new[i])@.len() == part_count(transcript[i]),
        forall|i: int, p: int|
            0 <= i < transcript.len() && 0 <= p < part_count(transcript[i]) ==> updated_in(
                entries_before(old, i),
                #[trigger] new[i]@[p],
                p,
                transcript[i],
                ids[i]@[p],
            ),
    ensures
        forall|i: int| 0 <= i < transcript.len() ==> !#[trigger] MarkdownCache::message_changed(new, transcript, ids, i),
{
    assert forall|i: int| 0 <= i < transcript.len() implies !#[trigger] MarkdownCache::message_changed(
        new,
        transcript,
        ids,
        i,
    ) by {
        assert(entries_before(new, i) == new[i]@);
        assert forall|p: int| 0 <= p < part_count(transcript[i]) implies !#[trigger] changes_in(
            new[i]@,
            p,
            transcript[i],
            ids[i]@[p],
        ) by {
            lemma_updated_entry_settles(entries_before(old, i), new[i]@[p], p, transcript[i], ids[i]@[p]);
        }
    }
}

/// The rendered markdown of every part of every transcript message.
pub struct MarkdownCache {
    pub messages: Vec<Vec<CachedMarkdown>>,
}

/// A text's address, which tells apart two texts held in different
/// allocations (`str::as_ptr`). A reference is never null, so the address is
/// never 0; nothing else is stated of it, as it depends on the allocator.
#[verifier::external_body]
fn source_address(text: &str) -> (r: usize)
    ensures
        r != 0,
{
    text.as_ptr() as usize
}

/// The address of each part's markdown source (0 exactly for a part without
/// one):
/// a cheap sign that a source is the one cached.
pub fn source_identities(transcript: &Vec<TranscriptItem>) -> (ids: Vec<Vec<usize>>)
    ensures
        ids@.len() == transcript@.len(),
        forall|i: int| 0 <= i < ids@.len() ==> (#[trigger] ids@[i])@.len() == part_count(transcript@[i]),
        forall|i: int, p: int|
            0 <= i < ids@.len() && 0 <= p < part_count(transcript@[i]) ==> ((ids@[i]@[p] == 0) <==> (
            #[trigger] source_of(transcript@[i], p)) is None),
{
    let mut ids: Vec<Vec<usize>> = Vec::new();
    let mut i: usize = 0;
    while i < transcript.len()
        invariant
            0 <= i <= transcript@.len(),
            ids@.len() == i,
            forall|j: int| 0 <= j < i ==> (#[trigger] ids@[j])@.len() == part_count(transcript@[j]),
            forall|j: int, p: int|
                0 <= j < i && 0 <= p < part_count(transcript@[j]) ==> ((ids@[j]@[p] == 0) <==> (
                #[trigger] source_of(transcript@[j], p)) is None),
        decreases transcript@.len() - i,
    {
        let item = &transcript[i];
        let count = if item.parts.len() == 0 {
            1
        } else {
            item.parts.len()
        };
        let mut row: Vec<usize> = Vec::new();
        let mut p: usize = 0;
        while p < count
            invariant
                count == part_count(*item),
                0 <= p <= count,
                row@.len() == p,
                forall|q: int| 0 <= q < p ==> ((row@[q] == 0) <==> (#[trigger] source_of(*item, q)) is None),
            decreases count - p,
        {
            let id = match part_source(item, p) {
                Some(source) => source_address(source.as_str()),
                None => 0,
            };
            row.push(id);
            p = p + 1;
        }
        ids.push(row);
        i = i + 1;
    }
    ids
}

impl MarkdownCache {
    /// An empty cache.
    pub fn new() -> (c: MarkdownCache)
        ensures
            c.messages@.len() == 0,
    {
        MarkdownCache { messages: Vec::new() }
    }

    /// Message `i` changes when the cache is brought up to date.
    pub open spec fn message_changed(
        old: Seq<Vec<CachedMarkdown>>,
        transcript: Seq<TranscriptItem>,
        ids: Seq<Vec<usize>>,
        i: int,
    ) -> bool {
        message_changes(entries_before(old, i), transcript[i], ids[i]@)
    }

    /// Brings the cache up to date with the transcript, given the
    /// identities of the parts' sources (see `source_identities`): one list
    /// of entries per message and one entry per part, each brought up to
    /// date (see `updated_in`). Reports whether anything changed (the number
    /// of messages, or a message) and the first and last changed message.
    pub fn sync(&mut self, transcript: &Vec<TranscriptItem>, identities: &Vec<Vec<usize>>) -> (out: CacheSync)
        requires
            identities@.len() == transcript@.len(),
            forall|i: int| 0 <= i < identities@.len() ==> (#[trigger] identities@[i])@.len() == part_count(transcript@[i]),
        ensures
            final(self).messages@.len() == transcript@.len(),
            forall|i: int|
                0 <= i < transcript@.len() ==> (#[trigger] final(self).messages@[i])@.len() == part_count(transcript@[i]),
            forall|i: int, p: int|
                0 <= i < transcript@.len() && 0 <= p < part_count(transcript@[i]) ==> updated_in(
                    entries_before(old(self).messages@, i),
                    #[trigger] final(self).messages@[i]@[p],
                    p,
                    transcript@[i],
                    identities@[i]@[p],
                ),
            out.changed == (old(self).messages@.len() != transcript@.len() || exists|i: int|
                0 <= i < transcript@.len() && #[trigger] Self::message_changed(
                    old(self).messages@,
                    transcript@,
                    identities@,
                    i,
                )),
            match out.changed_messages {
                Some((a, b)) => {
                    &&& a <= b < transcript@.len()
                    &&& Self::message_changed(old(self).messages@, transcript@, identities@, a as int)
                    &&& Self::message_changed(old(self).messages@, transcript@, identities@, b as int)
                    &&& forall|i: int|
                        0 <= i < transcript@.len() && #[trigger] Self::message_changed(
                            old(self).messages@,
                            transcript@,
                            identities@,
                            i,
                        ) ==> a <= i <= b
                },
                None => forall|i: int|
                    0 <= i < transcript@.len() ==> !#[trigger] Self::message_changed(
                        old(self).messages@,
                        transcript@,
                        identities@,
                        i,
                    ),
            },
    {
        let ghost old_m = self.messages@;
        let n = transcript.len();
        let mut changed = self.messages.len() != n;
        let mut first: Option<usize> = None;
        let mut last: Option<usize> = None;
        self.messages.truncate(n);
        let mut i: usize = 0;
        while i < n
            invariant
                n == transcript@.len(),
                identities@.len() == n,
                forall|k: int| 0 <= k < n ==> (#[trigger] identities@[k])@.len() == part_count(transcript@[k]),
                0 <= i <= n,
                self.messages@.len() == (if i as int >= (if old_m.len() < n { old_m.len() as int } else { n as int }) {
                    i as int
                } else {
                    if old_m.len() < n { old_m.len() as int } else { n as int }
                }),
                forall|j: int| i <= j < self.messages@.len() ==> #[trigger] self.messages@[j] == old_m[j],
                forall|j: int|
                    0 <= j < i ==> (#[trigger] self.messages@[j])@.len() == part_count(transcript@[j]),
                forall|j: int, p: int|
                    0 <= j < i && 0 <= p < part_count(transcript@[j]) ==> updated_in(
                        entries_before(old_m, j),
                        #[trigger] self.messages@[j]@[p],
                        p,
                        transcript@[j],
                        identities@[j]@[p],
                    ),
                changed == (old_m.len() != n || exists|j: int|
                    0 <= j < i && #[trigger] Self::message_changed(old_m, transcript@, identities@, j)),
                match first {
                    Some(a) => {
                        &&& last is Some
                        &&& a <= last->0 < i
                        &&& Self::message_changed(old_m, transcript@, identities@, a as int)
                        &&& Self::message_changed(old_m, transcript@, identities@, last->0 as int)
                        &&& forall|j: int|
                            0 <= j < i && #[trigger] Self::message_changed(old_m, transcript@, identities@, j) ==> a
                                <= j <= last->0
                    },
                    None => last is None && forall|j: int|
                        0 <= j < i ==> !#[trigger] Self::message_changed(old_m, transcript@, identities@, j),
                },
            decreases n - i,
        {
            if i == self.messages.len() {
                self.messages.push(Vec::new());
            }
            proof {
                assert(self.messages@[i as int]@ == entries_before(old_m, i as int));
            }
            let ghost was = changed;
            let message_changed = sync_message(&mut self.messages[i], &transcript[i], &identities[i]);
            proof {
                assert(message_changed == Self::message_changed(old_m, transcript@, identities@, i as int));
                if !was && !message_changed && old_m.len() == n {
                    assert forall|j: int| 0 <= j < i + 1 implies !#[trigger] Self::message_changed(
                        old_m,
                        transcript@,
                        identities@,
                        j,
                    ) by {
                        if j < i {
                            assert(!Self::message_changed(old_m, transcript@, identities@, j));
                        }
                    }
                }
            }
            if message_changed {
                changed = true;
                if first.is_none() {
                    first = Some(i);
                }
                last = Some(i);
            }
            proof {
                assert forall|j: int| 0 <= j < i + 1 && #[trigger] Self::message_changed(old_m, transcript@, identities@, j)
                    implies (first matches Some(a) && a <= j && j <= last->0) by {
                    if j == i {
                    }
                }
            }
            i = i + 1;
        }
        let changed_messages = match (first, last) {
            (Some(a), Some(b)) => Some((a, b)),
            _ => None,
        };
        CacheSync { changed, changed_messages }
    }

    /// How many rows each part of message `m` takes (see
    /// `cached_block_count`); `expanded` holds the keys of the expanded parts.
    pub fn block_counts(&self, m: usize, item: &TranscriptItem, expanded: &Vec<String>) -> (counts: Vec<Option<usize>>)
        ensures
            counts@.len() == part_count(*item),
            forall|p: int|
                0 <= p < counts@.len() ==> match #[trigger] counts@[p] {
                    Some(n) => cached_block_count(self.messages@, m as int, *item, p, expanded@) == Some(n as nat),
                    None => cached_block_count(self.messages@, m as int, *item, p, expanded@) is None,
                },
    {
        let count = if item.parts.len() == 0 {
            1
        } else {
            item.parts.len()
        };
        let mut counts: Vec<Option<usize>> = Vec::new();
        let mut p: usize = 0;
        while p < count
            invariant
                count == part_count(*item),
                0 <= p <= count,
                counts@.len() == p,
                forall|q: int|
                    0 <= q < p ==> match #[trigger] counts@[q] {
                        Some(n) => cached_block_count(self.messages@, m as int, *item, q, expanded@) == Some(n as nat),
                        None => cached_block_count(self.messages@, m as int, *item, q, expanded@) is None,
                    },
            decreases count - p,
        {
            if m < self.messages.len() && p < self.messages[m].len() {
                let part = if p < item.parts.len() {
                    Some(&item.parts[p])
                } else {
                    None
                };
                let is_reasoning = match part {
                    Some(TranscriptPart::Reasoning(_)) => true,
                    _ => false,
                };
                let expanded_part = is_reasoning && contains_key(expanded, chat_part_key(m, p).as_str());
                let n = transcript_part_block_count(part, &self.messages[m][p], expanded_part);
                counts.push(Some(n));
            } else {
                counts.push(None);
            }
            p = p + 1;
        }
        counts
    }

    /// The rows of message `m`: one per rendered block of each part that has
    /// a cache entry.
    pub fn message_rows(&self, m: usize, item: &TranscriptItem, expanded: &Vec<String>) -> (rows: Vec<TranscriptRenderRow>)
        ensures
            rows@ == message_rows(m, counts_for(self.messages@, m as int, *item, expanded@)),
    {
        let counts = self.block_counts(m, item, expanded);
        let rows = transcript_rows_for_message(m, &counts);
        proof {
            assert(counts@.map_values(|c: Option<usize>| match c {
                Some(n) => Some(n as nat),
                None => None,
            }) =~= counts_for(self.messages@, m as int, *item, expanded@));
        }
        rows
    }

    /// The rows of messages `a..b` of the transcript.
    pub fn rows_between(
        &self,
        transcript: &Vec<TranscriptItem>,
        expanded: &Vec<String>,
        a: usize,
        b: usize,
    ) -> (rows: Vec<TranscriptRenderRow>)
        requires
            b <= transcript@.len(),
        ensures
            rows@ == rows_between(self.messages@, transcript@, expanded@, a as int, b as int),
    {
        let mut rows: Vec<TranscriptRenderRow> = Vec::new();
        if b <= a {
            return rows;
        }
        let mut m = a;
        while m < b
            invariant
                a <= m <= b <= transcript@.len(),
                rows@ == rows_between(self.messages@, transcript@, expanded@, a as int, m as int),
            decreases b - m,
        {
            let mut more = self.message_rows(m, &transcript[m], expanded);
            rows.append(&mut more);
            m = m + 1;
        }
        rows
    }

    /// All rows of the transcript, and whether they only extend `old_rows`.
    pub fn rebuild_rows(
        &self,
        old_rows: &Vec<TranscriptRenderRow>,
        transcript: &Vec<TranscriptItem>,
        expanded: &Vec<String>,
    ) -> (r: (Vec<TranscriptRenderRow>, bool))
        ensures
            r.0@ == rows_between(self.messages@, transcript@, expanded@, 0, transcript@.len() as int),
            r.1 == (r.0@.len() >= old_rows@.len() && r.0@.take(old_rows@.len() as int) == old_rows@),
    {
        let rows = self.rows_between(transcript, expanded, 0, transcript.len());
        let appended = rows_only_appended(old_rows, &rows);
        (rows, appended)
    }

    /// The rows after messages `start..=end` (clamped to the transcript)
    /// changed: their rows replaced by fresh ones, and whether the rows only
    /// grew at the end. An empty transcript has no rows.
    pub fn rebuild_rows_in_range(
        &self,
        old_rows: &Vec<TranscriptRenderRow>,
        transcript: &Vec<TranscriptItem>,
        expanded: &Vec<String>,
        start: usize,
        end: usize,
    ) -> (r: (Vec<TranscriptRenderRow>, bool))
        ensures
            transcript@.len() == 0 ==> r.0@.len() == 0 && !r.1,
            transcript@.len() > 0 ==> ({
                let last = transcript@.len() - 1;
                let s = if start < last { start as int } else { last };
                let e0 = if end < last { end as int } else { last };
                let e = if e0 < s { s } else { e0 };
                &&& r.0@ == spliced_rows(
                    old_rows@,
                    s,
                    e,
                    rows_between(self.messages@, transcript@, expanded@, s, e + 1),
                )
                &&& r.1 == (r.0@.len() >= old_rows@.len() && r.0@.take(old_rows@.len() as int) == old_rows@)
            }),
    {
        if transcript.len() == 0 {
            return (Vec::new(), false);
        }
        let last = transcript.len() - 1;
        let s = if start < last {
            start
        } else {
            last
        };
        let e0 = if end < last {
            end
        } else {
            last
        };
        let e = if e0 < s {
            s
        } else {
            e0
        };
        let replacement = self.rows_between(transcript, expanded, s, e + 1);
        let rows = splice_transcript_rows(old_rows, s, e, &replacement);
        let appended = rows_only_appended(old_rows, &rows);
        (rows, appended)
    }

    /// The rows after an update that found `outcome`: unchanged (`None`)
    /// when nothing changed; the changed messages' rows replaced when the
    /// update names them; all rows rebuilt otherwise.
    pub fn refresh_rows(
        &self,
        outcome: CacheSync,
        old_rows: &Vec<TranscriptRenderRow>,
        transcript: &Vec<TranscriptItem>,
        expanded: &Vec<String>,
    ) -> (r: Option<(Vec<TranscriptRenderRow>, bool)>)
        ensures
            !outcome.changed ==> r is None,
            outcome.changed ==> r is Some,
            outcome.changed && outcome.changed_messages is None ==> (r matches Some(x) && x.0@ == rows_between(
                self.messages@,
                transcript@,
                expanded@,
                0,
                transcript@.len() as int,
            )),
            outcome.changed && outcome.changed_messages is Some && transcript@.len() > 0 ==> ({
                let (a, b) = outcome.changed_messages->0;
                let last = transcript@.len() - 1;
                let s = if a < last { a as int } else { last };
                let e0 = if b < last { b as int } else { last };
                let e = if e0 < s { s } else { e0 };
                r matches Some(x) && x.0@ == spliced_rows(
                    old_rows@,
                    s,
                    e,
                    rows_between(self.messages@, transcript@, expanded@, s, e + 1),
                )
            }),
            r matches Some(x) ==> x.1 == (x.0@.len() >= old_rows@.len() && x.0@.take(old_rows@.len() as int)
                == old_rows@) || (transcript@.len() == 0 && !x.1),
    {
        if !outcome.changed {
            return None;
        }
        match outcome.changed_messages {
            Some((a, b)) => Some(self.rebuild_rows_in_range(old_rows, transcript, expanded, a, b)),
            None => Some(self.rebuild_rows(old_rows, transcript, expanded)),
        }
    }
}

} // verus!
