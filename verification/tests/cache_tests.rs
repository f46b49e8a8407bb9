use mew_desktop::markdown_cache::{source_identities, CacheSync, MarkdownCache};
use mew_desktop::transcript::{TranscriptItem, TranscriptPart, TranscriptRenderRow, TranscriptRole};

fn assistant(parts: Vec<TranscriptPart>) -> TranscriptItem {
    TranscriptItem {
        role: TranscriptRole::Assistant,
        text: String::new(),
        parts,
    }
}

fn user(text: &str) -> TranscriptItem {
    TranscriptItem {
        role: TranscriptRole::User,
        text: text.to_string(),
        parts: Vec::new(),
    }
}

fn row(message_index: usize, part_index: usize, block_index: usize) -> TranscriptRenderRow {
    TranscriptRenderRow {
        message_index,
        part_index,
        block_index,
    }
}

fn sync(cache: &mut MarkdownCache, transcript: &Vec<TranscriptItem>) -> CacheSync {
    let ids = source_identities(transcript);
    cache.sync(transcript, &ids)
}

#[test]
fn the_cache_follows_the_transcript_and_settles() {
    let mut transcript = vec![
        user("hello"),
        assistant(vec![
            TranscriptPart::Text("first paragraph\n\nsecond paragraph\n".to_string()),
            TranscriptPart::File("notes.txt".to_string()),
        ]),
    ];
    let mut cache = MarkdownCache::new();
    let first = sync(&mut cache, &transcript);
    assert!(first.changed);
    assert_eq!(first.changed_messages, Some((0, 1)));
    assert_eq!(cache.messages.len(), 2);
    assert_eq!(cache.messages[1].len(), 2);
    assert_eq!(cache.messages[1][0].source, "first paragraph\n\nsecond paragraph\n");
    assert!(!cache.messages[1][0].render_blocks.is_empty());
    assert!(cache.messages[1][1].source.is_empty());
    assert!(cache.messages[1][1].render_blocks.is_empty());

    let again = sync(&mut cache, &transcript);
    assert!(!again.changed);
    assert_eq!(again.changed_messages, None);

    transcript.push(user("more"));
    let grown = sync(&mut cache, &transcript);
    assert!(grown.changed);
    assert_eq!(grown.changed_messages, Some((2, 2)));

    transcript.truncate(2);
    let shrunk = sync(&mut cache, &transcript);
    assert!(shrunk.changed);
    assert_eq!(shrunk.changed_messages, None);
    assert_eq!(cache.messages.len(), 2);
}

#[test]
fn cached_rows_count_rendered_blocks() {
    let transcript = vec![
        user("hello"),
        assistant(vec![
            TranscriptPart::Reasoning("one\n\ntwo\n".to_string()),
            TranscriptPart::Compaction { auto: true },
        ]),
    ];
    let mut cache = MarkdownCache::new();
    let outcome = sync(&mut cache, &transcript);
    let collapsed = cache.rebuild_rows(&Vec::new(), &transcript, &Vec::new());
    assert_eq!(collapsed.0, vec![row(0, 0, 0), row(1, 0, 0), row(1, 1, 0)]);
    assert!(collapsed.1);
    let blocks = cache.messages[1][0].render_blocks.len();
    let expanded = vec!["chat-part-1-0".to_string()];
    let open = cache.rebuild_rows(&collapsed.0, &transcript, &expanded);
    assert_eq!(open.0.len(), 2 + blocks);
    let refreshed = cache.refresh_rows(outcome, &Vec::new(), &transcript, &Vec::new());
    assert_eq!(refreshed.map(|r| r.0), Some(collapsed.0.clone()));
    let unchanged = CacheSync {
        changed: false,
        changed_messages: None,
    };
    assert!(cache
        .refresh_rows(unchanged, &collapsed.0, &transcript, &Vec::new())
        .is_none());
    let ranged = cache.rebuild_rows_in_range(&collapsed.0, &transcript, &Vec::new(), 9, 9);
    assert_eq!(ranged.0, collapsed.0);
}

#[test]
fn streamed_text_reuses_the_parser() {
    let mut transcript = vec![assistant(vec![TranscriptPart::Text("Hello".to_string())])];
    let mut cache = MarkdownCache::new();
    sync(&mut cache, &transcript);
    assert!(cache.messages[0][0].streaming.is_some());
    transcript[0].parts[0] = TranscriptPart::Text("Hello world\n\nNext".to_string());
    let outcome = sync(&mut cache, &transcript);
    assert_eq!(outcome.changed_messages, Some((0, 0)));
    assert_eq!(cache.messages[0][0].source, "Hello world\n\nNext");
    assert!(!cache.messages[0][0].render_blocks.is_empty());
}

#[test]
fn streamed_rows_cover_all_text_appended_so_far() {
    let mut transcript = vec![assistant(vec![TranscriptPart::Text("A **growing".to_string())])];
    let mut cache = MarkdownCache::new();
    sync(&mut cache, &transcript);
    transcript[0].parts[0] = TranscriptPart::Text("A **growing** response\n\nNext".to_string());
    sync(&mut cache, &transcript);
    let mut fresh = MarkdownCache::new();
    sync(&mut fresh, &transcript);
    assert_eq!(cache.messages[0][0].render_blocks, fresh.messages[0][0].render_blocks);
}

#[test]
fn parts_without_markdown_have_no_source_identity() {
    let transcript = vec![
        user("hello"),
        assistant(vec![
            TranscriptPart::Text("text".to_string()),
            TranscriptPart::File("notes.txt".to_string()),
        ]),
    ];
    let ids = source_identities(&transcript);
    assert_eq!(ids.len(), 2);
    assert_ne!(ids[0][0], 0);
    assert_ne!(ids[1][0], 0);
    assert_eq!(ids[1][1], 0);
}
