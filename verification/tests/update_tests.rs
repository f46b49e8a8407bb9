use mew_desktop::events::ClientEvent;
use mew_desktop::model::{connection_tone, ConnectionTone, ShellConnection};
use mew_desktop::popovers::{terminal_rows, Popover, Popovers};
use mew_desktop::sessions::{active_tab_for_selection, ConversationItem, OpenConversationTab};
use mew_desktop::model::ShellModel;
use mew_desktop::updates::{
    apply_update_steps, session_to_autoselect, PortalEvent, SessionRequest, ShellSurfaces,
    TerminalEffect,
};

fn surfaces() -> ShellSurfaces {
    ShellSurfaces {
        terminal_id: None,
        terminal_status: String::new(),
        browser_open: false,
        browser_url: String::new(),
        browser_title: String::new(),
        browser_error: None,
    }
}

fn conversation(session_id: &str, archived: bool) -> ConversationItem {
    ConversationItem {
        session_id: session_id.to_string(),
        title: String::new(),
        cwd: None,
        last_message_at: None,
        last_turn_failed: false,
        needs_attention: false,
        archived,
        pinned: false,
        group_id: None,
    }
}

#[test]
fn terminal_events_only_touch_the_open_terminal() {
    let mut s = surfaces();
    let effects = s.apply_all(&[
        ClientEvent::TerminalOutput {
            terminal_id: "t1".to_string(),
            bytes: vec![1],
        },
        ClientEvent::TerminalOpened {
            terminal_id: "t1".to_string(),
        },
        ClientEvent::TerminalOutput {
            terminal_id: "t1".to_string(),
            bytes: vec![104, 105],
        },
        ClientEvent::TerminalOutput {
            terminal_id: "t2".to_string(),
            bytes: vec![9],
        },
        ClientEvent::TerminalExited {
            terminal_id: "t2".to_string(),
            status: "exited 1".to_string(),
        },
    ]);
    assert_eq!(effects, vec![TerminalEffect::Clear, TerminalEffect::Ingest(vec![104, 105])]);
    assert_eq!(s.terminal_id.as_deref(), Some("t1"));
    assert_eq!(s.terminal_status, "running");
    s.apply(&ClientEvent::TerminalError {
        terminal_id: None,
        message: "lost".to_string(),
    });
    assert_eq!(s.terminal_status, "lost");
    s.apply(&ClientEvent::TerminalExited {
        terminal_id: "t1".to_string(),
        status: "exited 0".to_string(),
    });
    assert_eq!(s.terminal_status, "exited 0");
}

#[test]
fn browser_events_show_the_page() {
    let mut s = surfaces();
    s.apply(&ClientEvent::BrowserError {
        message: "boom".to_string(),
    });
    assert_eq!(s.browser_error.as_deref(), Some("boom"));
    s.apply(&ClientEvent::BrowserStateChanged {
        open: true,
        url: Some("https://a".to_string()),
        title: None,
    });
    assert!(s.browser_open);
    assert_eq!(s.browser_url, "https://a");
    assert_eq!(s.browser_error, None);
    s.apply(&ClientEvent::BrowserSnapshot {
        url: "https://b".to_string(),
        title: "B".to_string(),
    });
    assert_eq!(s.browser_title, "B");
    s.apply(&ClientEvent::BrowserStateChanged {
        open: false,
        url: None,
        title: None,
    });
    assert!(!s.browser_open);
    assert_eq!(s.browser_url, "https://b");
}

#[test]
fn the_first_live_session_is_selected_when_the_list_arrives() {
    let conversations = vec![conversation("old", true), conversation("new", false)];
    assert_eq!(
        session_to_autoselect(&conversations, true, false, false).as_deref(),
        Some("new")
    );
    assert_eq!(session_to_autoselect(&conversations, true, true, false), None);
    assert_eq!(session_to_autoselect(&conversations, false, false, false), None);
    assert_eq!(session_to_autoselect(&[conversation("x", true)], true, false, false), None);
}

#[test]
fn a_ready_session_ends_the_request_and_sends_the_model_choice() {
    let mut request = SessionRequest {
        pending: true,
        target: Some("s1".to_string()),
        pending_model: Some(("openai".to_string(), "gpt".to_string())),
        awaiting_switch: None,
    };
    let other = request.after_update(Some("s2"), None, None, false);
    assert!(!other.session_ready);
    assert!(request.pending);
    let ready = request.after_update(Some("s1"), None, None, true);
    assert!(ready.session_ready);
    assert_eq!(ready.switch_model, Some(("openai".to_string(), "gpt".to_string())));
    assert!(!ready.send_pending_prompt);
    assert!(!request.pending);
    assert_eq!(request.target, None);
    assert_eq!(request.pending_model, None);
    let switched = request.after_update(None, Some("openai"), Some("gpt"), true);
    assert!(switched.send_pending_prompt);
    assert_eq!(request.awaiting_switch, None);
}

#[test]
fn the_selected_session_picks_its_tab_and_the_indicator_follows_the_connection() {
    let tabs = vec![
        OpenConversationTab {
            session_id: None,
            title: "New conversation".to_string(),
        },
        OpenConversationTab {
            session_id: Some("s1".to_string()),
            title: "One".to_string(),
        },
    ];
    assert_eq!(active_tab_for_selection(&tabs, Some(0), Some("s1")), Some(1));
    assert_eq!(active_tab_for_selection(&tabs, Some(0), Some("s9")), Some(0));
    assert_eq!(active_tab_for_selection(&tabs, None, None), None);
    assert_eq!(connection_tone(&ShellConnection::Connected), ConnectionTone::Good);
    assert_eq!(connection_tone(&ShellConnection::Reconnecting), ConnectionTone::Pending);
    assert_eq!(
        connection_tone(&ShellConnection::Error("x".to_string())),
        ConnectionTone::Failed
    );
    assert_eq!(connection_tone(&ShellConnection::Starting), ConnectionTone::Idle);
}

#[test]
fn pickers_exclude_one_another_and_close_together() {
    let mut popovers = Popovers {
        model: false,
        persona: false,
        permission: false,
        thinking: false,
        terminal_font: false,
        connection: false,
    };
    popovers.toggle(Popover::Model);
    assert!(popovers.model);
    popovers.toggle(Popover::Connection);
    assert!(popovers.model && popovers.connection);
    popovers.toggle(Popover::Thinking);
    assert!(!popovers.model && popovers.thinking && popovers.connection);
    popovers.toggle(Popover::Thinking);
    assert!(!popovers.thinking);
    assert!(popovers.close_all());
    assert!(!popovers.connection);
    assert!(!popovers.close_all());
    assert_eq!(terminal_rows(true), 1);
    assert_eq!(terminal_rows(false), 7);
}

#[test]
fn the_browser_panel_opens_navigates_and_follows_its_view() {
    let mut s = surfaces();
    assert_eq!(s.initial_page(), "about:blank");
    s.open_browser(Some("https://docs.rs"));
    assert!(s.browser_open);
    assert_eq!(s.browser_url, "https://docs.rs");
    s.open_browser(None);
    assert_eq!(s.browser_url, "https://docs.rs");
    assert_eq!(s.initial_page(), "https://docs.rs");
    s.browser_url = "javascript:alert(1)".to_string();
    assert_eq!(s.navigate(), None);
    assert_eq!(s.browser_error.as_deref(), Some("enter a valid http(s) URL"));
    s.browser_url = "example.com".to_string();
    let target = s.navigate();
    assert_eq!(target.as_deref(), Some(s.browser_url.as_str()));
    assert_eq!(s.browser_error, None);
    let changed = s.apply_portal_events(&vec![
        PortalEvent::AddressChanged {
            owner: Some("someone-else".to_string()),
            url: "https://x".to_string(),
        },
        PortalEvent::TitleChanged {
            owner: None,
            title: "Docs".to_string(),
        },
        PortalEvent::Other,
    ]);
    assert!(changed);
    assert_eq!(s.browser_title, "Docs");
    assert!(!s.apply_portal_events(&vec![PortalEvent::Other]));
    s.reset_browser();
    assert!(!s.browser_open);
    assert!(s.browser_url.is_empty());
}

fn titled_conversation(id: &str, archived: bool) -> ConversationItem {
    ConversationItem {
        session_id: id.into(),
        title: format!("Title {id}"),
        cwd: None,
        last_message_at: None,
        last_turn_failed: false,
        needs_attention: false,
        archived,
        pinned: false,
        group_id: None,
    }
}

#[test]
fn session_list_change_selects_and_requests_the_first_unarchived_session() {
    let mut model = ShellModel::starting(None);
    let mut request = SessionRequest {
        pending: false,
        target: None,
        pending_model: None,
        awaiting_switch: None,
    };
    let mut tabs: Vec<OpenConversationTab> = Vec::new();
    let mut active = None;
    let conversations = [titled_conversation("a", true), titled_conversation("b", false)];
    let out = apply_update_steps(
        &[ClientEvent::SessionListChanged],
        &mut model,
        &mut request,
        &mut tabs,
        &mut active,
        &conversations,
        None,
        None,
    );
    assert!(out.plan.session_list_changed);
    assert_eq!(out.autoselected.as_deref(), Some("b"));
    assert_eq!(model.ui.selected_session.as_deref(), Some("b"));
    assert!(request.pending);
    assert_eq!(request.target.as_deref(), Some("b"));
    assert!(tabs.is_empty());
    assert!(!out.effects.session_ready);
    assert!(out.effects.send_pending_prompt);
}

#[test]
fn ready_attach_target_is_selected_gets_a_tab_and_settles_the_request() {
    let mut model = ShellModel::starting(None);
    model.ui.selected_session = Some("old".into());
    let mut request = SessionRequest {
        pending: true,
        target: Some("t".into()),
        pending_model: Some(("p".into(), "m".into())),
        awaiting_switch: None,
    };
    let mut tabs = vec![OpenConversationTab { session_id: Some("old".into()), title: "Old".into() }];
    let mut active = Some(0);
    let conversations = [titled_conversation("old", false), titled_conversation("t", false)];
    let out = apply_update_steps(
        &[ClientEvent::SessionReady { session_id: "t".into() }],
        &mut model,
        &mut request,
        &mut tabs,
        &mut active,
        &conversations,
        None,
        None,
    );
    assert_eq!(out.plan.ready_session.as_deref(), Some("t"));
    assert_eq!(model.ui.selected_session.as_deref(), Some("t"));
    assert_eq!(tabs.len(), 2);
    assert_eq!(tabs[1].session_id.as_deref(), Some("t"));
    assert_eq!(tabs[1].title, "Title t");
    assert_eq!(active, Some(1));
    assert!(out.autoselected.is_none());
    assert!(out.effects.session_ready);
    assert_eq!(out.effects.switch_model, Some(("p".to_string(), "m".to_string())));
    assert!(!out.effects.send_pending_prompt);
    assert!(!request.pending);
    assert!(request.target.is_none());
    assert_eq!(request.awaiting_switch, Some(("p".to_string(), "m".to_string())));
}
