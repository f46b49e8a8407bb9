use mew_desktop::center::{
    attachment_label, empty_transcript_text, error_banner, last_message_is_user,
    model_display_label, presence_label, selected_turn_failed,
};
use mew_desktop::rename::RenameState;
use mew_desktop::sessions::ConversationItem;
use mew_desktop::sidebar::{
    group_can_be_deleted, group_drop_target, new_session_group, next_group_name,
    session_menu_labels, session_row_label, session_status, SessionStatus,
};
use mew_desktop::transcript::{TranscriptItem, TranscriptRole};
use mew_desktop::workbench::{activity_label, change_label, change_totals, changes_message, DiffStat};

fn conversation(session_id: &str, title: &str, failed: bool) -> ConversationItem {
    ConversationItem {
        session_id: session_id.to_string(),
        title: title.to_string(),
        cwd: None,
        last_message_at: None,
        last_turn_failed: failed,
        needs_attention: false,
        archived: false,
        pinned: false,
        group_id: None,
    }
}

#[test]
fn picker_labels_fall_back_and_join_the_thinking_variant() {
    assert_eq!(model_display_label(None, None), "choose a model");
    assert_eq!(model_display_label(Some("  "), Some("high")), "choose a model · high");
    assert_eq!(model_display_label(Some("gpt"), Some("")), "gpt");
    assert_eq!(model_display_label(Some("gpt"), Some("low")), "gpt · low");
}

#[test]
fn surface_texts_follow_the_state() {
    assert_eq!(empty_transcript_text(true).0, "ready when you are");
    assert_eq!(empty_transcript_text(false).0, "start a coding session");
    assert_eq!(error_banner(true), ("Connection issue", "retry"));
    assert_eq!(error_banner(false), ("Daemon error", "dismiss"));
    assert_eq!(presence_label(1), "1 client");
    assert_eq!(presence_label(3), "3 clients");
    assert_eq!(presence_label(0), "0 clients");
    assert_eq!(attachment_label("/tmp/shots/a.png"), "a.png");
    assert_eq!(attachment_label("/"), "/");
}

#[test]
fn attention_inputs_come_from_the_selected_session_and_transcript() {
    let conversations = vec![conversation("a", "A", true), conversation("b", "B", false)];
    assert!(selected_turn_failed(&conversations, Some("a")));
    assert!(!selected_turn_failed(&conversations, Some("b")));
    assert!(!selected_turn_failed(&conversations, None));
    let user = TranscriptItem {
        role: TranscriptRole::User,
        text: "hi".to_string(),
        parts: Vec::new(),
    };
    assert!(last_message_is_user(&[user.clone()]));
    assert!(!last_message_is_user(&[]));
}

#[test]
fn renames_commit_only_new_nonempty_titles() {
    let conversations = vec![conversation("a", "Old title", false)];
    let mut rename = RenameState::new();
    rename.begin("a".to_string(), &conversations);
    assert_eq!(rename.draft.text, "Old title");
    assert_eq!(rename.draft.selection, 0..9);
    rename.draft.replace_text(None, "  New title ");
    assert_eq!(
        rename.commit(&conversations),
        Some(("a".to_string(), "New title".to_string()))
    );
    assert_eq!(rename.session_id, None);
    rename.begin("a".to_string(), &conversations);
    assert_eq!(rename.commit(&conversations), None);
    rename.begin("a".to_string(), &conversations);
    rename.draft.replace_text(None, "   ");
    assert_eq!(rename.commit(&conversations), None);
    rename.begin("zz".to_string(), &conversations);
    assert_eq!(rename.draft.text, "New conversation");
    rename.cancel();
    assert!(rename.draft.text.is_empty());
    assert_eq!(rename.commit(&conversations), None);
}

#[test]
fn group_rows_route_drops_and_new_sessions() {
    assert_eq!(group_drop_target("__archived__"), None);
    assert_eq!(group_drop_target("__ungrouped__"), Some(None));
    assert_eq!(group_drop_target("g1"), Some(Some("g1".to_string())));
    assert_eq!(new_session_group("__ungrouped__"), None);
    assert_eq!(new_session_group("g1"), Some("g1".to_string()));
    assert!(group_can_be_deleted("g1", true));
    assert!(!group_can_be_deleted("g1", false));
    assert!(!group_can_be_deleted("__archived__", true));
    assert_eq!(next_group_name(2), "Group 3");
    assert_eq!(session_status(true, true), SessionStatus::Attention);
    assert_eq!(session_status(false, true), SessionStatus::Selected);
    assert_eq!(session_status(false, false), SessionStatus::Idle);
    assert_eq!(session_menu_labels(true, false), ("Unpin", "Archive"));
    assert_eq!(session_menu_labels(false, true), ("Pin", "Unarchive"));
    assert_eq!(session_row_label("Fix bug", Some("~/src")), "Conversation: Fix bug · ~/src");
    assert_eq!(session_row_label("Fix bug", None), "Conversation: Fix bug");
}

#[test]
fn workbench_sections_summarize_changes_and_activity() {
    let none: Vec<DiffStat> = Vec::new();
    assert_eq!(change_totals(3, 10, 2, &none), (3, 10, 2));
    let diffs = vec![
        DiffStat { added: 4, removed: 1 },
        DiffStat { added: 6, removed: 0 },
    ];
    assert_eq!(change_totals(9, 99, 99, &diffs), (2, 10, 1));
    assert_eq!(change_label(0), "Changes");
    assert_eq!(change_label(2), "Changes · 2 files");
    assert_eq!(
        changes_message(true, None),
        ("Loading workspace changes…", "Changed files will appear here during a run.".to_string())
    );
    assert_eq!(
        changes_message(false, Some("git failed")),
        ("Could not load workspace changes", "git failed".to_string())
    );
    assert_eq!(activity_label(true, 2, 0, 0, true).0, "Needs input");
    assert_eq!(activity_label(false, 1, 0, 0, false).0, "1 subagent");
    assert_eq!(activity_label(false, 2, 0, 0, false).0, "2 subagents");
    assert_eq!(activity_label(false, 0, 1, 3, true).0, "1/3 todos");
    assert_eq!(
        activity_label(false, 0, 0, 0, true),
        ("Working".to_string(), "The session is processing a turn.")
    );
    assert_eq!(activity_label(false, 0, 0, 0, false).0, "No active tasks");
}
