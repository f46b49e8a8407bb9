use mew_desktop::attachments::{Attachment, Attachments, FileProbe, MAX_ATTACHMENT_BYTES};
use mew_desktop::events::{plan_client_update, session_request_completed, ClientEvent};
use mew_desktop::file_tree::{DirEntry, DirListing};
use mew_desktop::highlights::{inline_segments, InlineSegment};
use mew_desktop::markdown::{InlineHighlight, InlineStyle};
use mew_desktop::sessions::ConversationItem;
use mew_desktop::transcript::{
    rows_only_appended, splice_transcript_rows, transcript_rows_for_message,
    transcript_selection_text, TranscriptRenderRow, TranscriptSelection,
    TranscriptSelectionPoint, TranscriptTextEntry,
};
use mew_desktop::workspace::{listable_session, toggle_member, WorkspaceCommand, WorkspaceTree};

fn conversation(session_id: &str, cwd: Option<&str>) -> ConversationItem {
    ConversationItem {
        session_id: session_id.to_string(),
        title: String::new(),
        cwd: cwd.map(str::to_string),
        last_message_at: None,
        last_turn_failed: false,
        needs_attention: false,
        archived: false,
        pinned: false,
        group_id: None,
    }
}

fn list(session: &str, path: Option<&str>) -> WorkspaceCommand {
    WorkspaceCommand::ListDir {
        session_id: session.to_string(),
        path: path.map(str::to_string),
    }
}

fn watch(session: &str, enabled: bool) -> WorkspaceCommand {
    WorkspaceCommand::WatchWorkspace {
        session_id: session.to_string(),
        enabled,
    }
}

fn entry(name: &str, is_dir: bool) -> DirEntry {
    DirEntry {
        name: name.to_string(),
        is_dir,
        size: None,
    }
}

#[test]
fn only_a_ready_session_with_a_working_directory_is_listable() {
    let conversations = vec![conversation("a", Some("/w")), conversation("b", None)];
    let a = Some("a".to_string());
    assert_eq!(listable_session(true, &a, &conversations), a);
    assert_eq!(listable_session(false, &a, &conversations), None);
    assert_eq!(listable_session(true, &Some("b".to_string()), &conversations), None);
    assert_eq!(listable_session(true, &None, &conversations), None);
}

#[test]
fn the_watch_follows_the_local_view_and_lists_the_root_once() {
    let session = Some("a".to_string());
    let mut tree = WorkspaceTree::new();
    assert_eq!(tree.sync_watch(true, &session), vec![watch("a", true), list("a", None)]);
    assert_eq!(tree.watching, session);
    assert!(tree.sync_watch(true, &session).is_empty());
    // The root listing is already awaited.
    assert_eq!(tree.request_dir_listing(&session, None), None);
    assert_eq!(tree.sync_watch(false, &session), vec![watch("a", false)]);
    assert_eq!(tree.watching, None);
    assert!(tree.pending.is_empty());
    let other = Some("b".to_string());
    tree.sync_watch(true, &session);
    assert_eq!(
        tree.sync_watch(true, &other),
        vec![watch("a", false), watch("b", true), list("b", None)]
    );
}

#[test]
fn listings_answer_requests_and_changes_refresh_expanded_directories() {
    let session = Some("a".to_string());
    let mut tree = WorkspaceTree::new();
    tree.sync_watch(true, &session);
    let root = Some(String::new());
    assert!(tree
        .apply_listing(&session, &session, &root, vec![entry("src", true), entry("docs", true)])
        .is_empty());
    assert!(tree.pending.is_empty());
    assert_eq!(tree.listings.len(), 1);
    assert_eq!(tree.toggle_dir(&session, "src".to_string()), Some(list("a", Some("src"))));
    assert_eq!(tree.toggle_dir(&session, "docs".to_string()), Some(list("a", Some("docs"))));
    assert_eq!(tree.expanded, vec!["docs".to_string(), "src".to_string()]);
    // A listing for another session is ignored.
    assert!(tree
        .apply_listing(&session, &Some("z".to_string()), &root, Vec::new())
        .is_empty());
    // A change push asks again for what is not already awaited, in order.
    assert_eq!(
        tree.apply_listing(&session, &session, &None, Vec::new()),
        vec![list("a", None)]
    );
    assert!(tree
        .apply_listing(&session, &session, &Some("src".to_string()), vec![entry("lib.rs", false)])
        .is_empty());
    assert_eq!(
        tree.apply_listing(&session, &session, &None, Vec::new()),
        vec![list("a", Some("src"))]
    );
    assert_eq!(tree.toggle_dir(&session, "src".to_string()), None);
    assert_eq!(tree.expanded, vec!["docs".to_string()]);
    // Expanding a directory already listed asks for nothing.
    assert_eq!(tree.toggle_dir(&session, "src".to_string()), None);
    let stored: Vec<&DirListing> = tree.listings.iter().filter(|l| l.dir == "src").collect();
    assert_eq!(stored.len(), 1);
    assert_eq!(stored[0].entries, vec![entry("lib.rs", false)]);
}

#[test]
fn attachments_refuse_folders_large_and_unreadable_files() {
    let mut attachments = Attachments::new();
    attachments.add("/tmp/dir", FileProbe::NotAFile);
    assert_eq!(attachments.error.as_deref(), Some("Only files can be attached."));
    attachments.add("/tmp/big.bin", FileProbe::File(MAX_ATTACHMENT_BYTES + 1));
    assert_eq!(
        attachments.error.as_deref(),
        Some("File is too large. Attachments are limited to 10 MB.")
    );
    attachments.add("/tmp/x", FileProbe::Unreadable("denied".to_string()));
    assert_eq!(attachments.error.as_deref(), Some("Could not read file: denied"));
    assert!(attachments.items.is_empty());
    attachments.add("/tmp/shot.PNG", FileProbe::File(MAX_ATTACHMENT_BYTES));
    assert_eq!(attachments.error, None);
    assert_eq!(
        attachments.items,
        vec![Attachment {
            path: "/tmp/shot.PNG".to_string(),
            mime: Some("image/png".to_string()),
        }]
    );
    attachments.add("/tmp/notes", FileProbe::File(3));
    assert_eq!(attachments.items[1].mime, None);
    attachments.add("/tmp/shot.PNG", FileProbe::File(3));
    assert_eq!(attachments.items.len(), 2);
    attachments.remove(5);
    assert_eq!(attachments.items.len(), 2);
    attachments.remove(0);
    assert_eq!(attachments.items[0].path, "/tmp/notes");
}

#[test]
fn inline_runs_split_at_highlights_and_selection() {
    let highlights = vec![InlineHighlight {
        range: 2..5,
        style: InlineStyle::Strong,
    }];
    assert_eq!(
        inline_segments(8, &highlights, &None),
        vec![InlineSegment {
            range: 2..5,
            style: Some(InlineStyle::Strong),
            selected: false,
        }]
    );
    assert_eq!(
        inline_segments(8, &highlights, &Some(4..7)),
        vec![
            InlineSegment {
                range: 2..4,
                style: Some(InlineStyle::Strong),
                selected: false,
            },
            InlineSegment {
                range: 4..5,
                style: Some(InlineStyle::Strong),
                selected: true,
            },
            InlineSegment {
                range: 5..7,
                style: None,
                selected: true,
            },
        ]
    );
    assert!(inline_segments(0, &Vec::new(), &None).is_empty());
}

fn point(message_index: usize, block_index: usize, offset: usize) -> TranscriptSelectionPoint {
    TranscriptSelectionPoint {
        message_index,
        block_index,
        offset,
    }
}

fn text_entry(message_index: usize, block_index: usize, text: &str) -> TranscriptTextEntry {
    TranscriptTextEntry {
        message_index,
        block_index,
        text: text.to_string(),
    }
}

#[test]
fn selected_transcript_text_joins_blocks_in_order() {
    let entries = vec![
        text_entry(1, 0, "third block"),
        text_entry(0, 1, "second"),
        text_entry(0, 0, "first é"),
    ];
    let selection = TranscriptSelection {
        start: point(1, 0, 5),
        end: point(0, 0, 6),
    };
    assert_eq!(
        transcript_selection_text(&selection, &entries).as_deref(),
        Some("é\nsecond\nthird")
    );
    let nothing = TranscriptSelection {
        start: point(2, 0, 0),
        end: point(2, 0, 4),
    };
    assert_eq!(transcript_selection_text(&nothing, &entries), None);
}

fn row(message_index: usize, part_index: usize, block_index: usize) -> TranscriptRenderRow {
    TranscriptRenderRow {
        message_index,
        part_index,
        block_index,
    }
}

#[test]
fn transcript_rows_are_rebuilt_per_message() {
    let rows = transcript_rows_for_message(3, &vec![Some(2), None, Some(1)]);
    assert_eq!(rows, vec![row(3, 0, 0), row(3, 0, 1), row(3, 2, 0)]);
    let old = vec![row(0, 0, 0), row(1, 0, 0), row(2, 0, 0)];
    let spliced = splice_transcript_rows(&old, 1, 1, &vec![row(1, 0, 0), row(1, 1, 0)]);
    assert_eq!(spliced, vec![row(0, 0, 0), row(1, 0, 0), row(1, 1, 0), row(2, 0, 0)]);
    assert!(!rows_only_appended(&old, &spliced));
    let appended = splice_transcript_rows(&old, 3, 3, &vec![row(3, 0, 0)]);
    assert!(rows_only_appended(&old, &appended));
}

#[test]
fn a_batch_of_events_is_planned_once() {
    let events = vec![
        ClientEvent::TextDelta {
            session_id: "s".to_string(),
            part_id: "p".to_string(),
            delta: "x".to_string(),
        },
        ClientEvent::SessionReady {
            session_id: "s".to_string(),
        },
        ClientEvent::SessionReady {
            session_id: "t".to_string(),
        },
        ClientEvent::FileTreeChanged,
    ];
    let plan = plan_client_update(&events);
    assert_eq!(plan.ready_session.as_deref(), Some("s"));
    assert!(plan.append_deltas);
    assert!(plan.file_tree_changed);
    assert!(plan.refresh_changes);
    assert!(plan.refresh_tab_titles);
    assert!(!plan.browser_event);
    assert!(!plan.session_list_changed);
    let empty = plan_client_update(&[]);
    assert!(empty.sync_metadata);
    assert!(session_request_completed(Some("s"), true, None));
}

#[test]
fn toggling_a_member_adds_or_removes_it() {
    let mut expanded = vec!["chat-part-0-1".to_string()];
    toggle_member(&mut expanded, "chat-part-2-0");
    assert_eq!(expanded, vec!["chat-part-0-1".to_string(), "chat-part-2-0".to_string()]);
    toggle_member(&mut expanded, "chat-part-0-1");
    assert_eq!(expanded, vec!["chat-part-2-0".to_string()]);
}
