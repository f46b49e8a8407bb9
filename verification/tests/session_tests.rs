use mew_desktop::sessions::{
    active_tab_after_close, open_tab_for_session, refresh_tab_title, remove_unbound_tabs,
    settle_selection_and_tabs, should_track_session_ready, ConversationItem, OpenConversationTab,
};

#[test]
fn refreshes_fallback_tab_title_after_session_metadata_arrives() {
    let mut tab = OpenConversationTab {
        session_id: Some("session-1".into()),
        title: "New conversation".into(),
    };
    let conversations = [ConversationItem {
        session_id: "session-1".into(),
        title: "A real session".into(),
        cwd: None,
        last_message_at: None,
        last_turn_failed: false,
        needs_attention: false,
        archived: false,
        pinned: false,
        group_id: None,
    }];

    refresh_tab_title(&mut tab, &conversations);

    assert_eq!(tab.title, "A real session");
}

#[test]
fn stale_session_ready_events_cannot_replace_active_view_state() {
    assert!(should_track_session_ready(
        Some("session-1"),
        Some("session-1"),
        "session-1"
    ));
    assert!(should_track_session_ready(
        Some("session-1"),
        None,
        "session-1"
    ));
    assert!(!should_track_session_ready(
        Some("session-1"),
        Some("session-1"),
        "session-2"
    ));
    assert!(!should_track_session_ready(
        Some("session-1"),
        Some("session-2"),
        "session-1"
    ));
}

#[test]
fn removes_placeholder_tabs_when_opening_an_existing_session() {
    let mut tabs = vec![
        OpenConversationTab {
            session_id: Some("session-1".into()),
            title: "A real session".into(),
        },
        OpenConversationTab {
            session_id: None,
            title: "New conversation".into(),
        },
    ];

    remove_unbound_tabs(&mut tabs);

    assert_eq!(
        tabs,
        vec![OpenConversationTab {
            session_id: Some("session-1".into()),
            title: "A real session".into(),
        }]
    );
}

#[test]
fn opening_a_session_does_not_require_a_placeholder_tab() {
    let mut tabs = Vec::new();
    let session_tab = OpenConversationTab {
        session_id: Some("session-1".into()),
        title: "A real session".into(),
    };

    let index = open_tab_for_session(&mut tabs, None, session_tab.clone());

    assert_eq!(index, 0);
    assert_eq!(tabs, vec![session_tab]);
    assert!(tabs.iter().all(|tab| tab.session_id.is_some()));
}

#[test]
fn opening_a_session_reuses_only_the_active_placeholder() {
    let mut tabs = vec![
        OpenConversationTab {
            session_id: None,
            title: "New conversation".into(),
        },
        OpenConversationTab {
            session_id: None,
            title: "New conversation".into(),
        },
    ];
    let session_tab = OpenConversationTab {
        session_id: Some("session-1".into()),
        title: "A real session".into(),
    };

    let index = open_tab_for_session(&mut tabs, Some(1), session_tab.clone());

    assert_eq!(index, 1);
    assert_eq!(
        tabs,
        vec![
            OpenConversationTab {
                session_id: None,
                title: "New conversation".into(),
            },
            session_tab,
        ]
    );
}

#[test]
fn closing_a_tab_adjusts_the_active_index_for_the_removed_tab() {
    assert_eq!(active_tab_after_close(Some(2), 0, 2), Some(1));
    assert_eq!(active_tab_after_close(Some(2), 1, 2), Some(1));
    assert_eq!(active_tab_after_close(Some(0), 1, 2), Some(0));
    assert_eq!(active_tab_after_close(Some(1), 1, 2), Some(1));
    assert_eq!(active_tab_after_close(None, 1, 2), Some(1));
    assert_eq!(active_tab_after_close(Some(1), 1, 0), None);
}

fn listed(id: &str, title: &str) -> ConversationItem {
    ConversationItem {
        session_id: id.into(),
        title: title.into(),
        cwd: None,
        last_message_at: None,
        last_turn_failed: false,
        needs_attention: false,
        archived: false,
        pinned: false,
        group_id: None,
    }
}

#[test]
fn pending_attach_target_overrides_selection_and_gets_a_tab() {
    let mut selected = Some("other".to_string());
    let mut tabs = vec![
        OpenConversationTab { session_id: Some("other".into()), title: "Other".into() },
        OpenConversationTab { session_id: None, title: "New conversation".into() },
    ];
    let mut active = Some(1);
    let conversations = [listed("other", "Other"), listed("target", "Target title")];
    settle_selection_and_tabs(&mut selected, Some("target"), &mut tabs, &mut active, &conversations);
    assert_eq!(selected.as_deref(), Some("target"));
    assert_eq!(tabs.len(), 2);
    assert_eq!(tabs[1].session_id.as_deref(), Some("target"));
    assert_eq!(tabs[1].title, "Target title");
    assert_eq!(active, Some(1));
}

#[test]
fn selected_session_with_a_tab_leaves_the_tabs_alone() {
    let mut selected = Some("a".to_string());
    let mut tabs = vec![OpenConversationTab { session_id: Some("a".into()), title: "A".into() }];
    let mut active = None;
    settle_selection_and_tabs(&mut selected, None, &mut tabs, &mut active, &[]);
    assert_eq!(selected.as_deref(), Some("a"));
    assert_eq!(tabs.len(), 1);
    assert_eq!(active, None);
}

#[test]
fn unlisted_selected_session_opens_a_new_conversation_tab() {
    let mut selected = Some("fresh".to_string());
    let mut tabs: Vec<OpenConversationTab> = Vec::new();
    let mut active = None;
    settle_selection_and_tabs(&mut selected, None, &mut tabs, &mut active, &[]);
    assert_eq!(tabs.len(), 1);
    assert_eq!(tabs[0].title, "New conversation");
    assert_eq!(active, Some(0));
}
