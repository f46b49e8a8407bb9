use mew_desktop::labels::AuxiliaryView;
use mew_desktop::layout::ShellLayoutState;
use mew_desktop::view_states::{SessionViewState, SessionViewStates};

fn current_view() -> SessionViewState {
    SessionViewState {
        layout: ShellLayoutState {
            sidebar_collapsed: true,
            workbench_collapsed: false,
            terminal_collapsed: true,
            changes_expanded: false,
            local_expanded: true,
            activity_expanded: false,
        },
        auxiliary_view: AuxiliaryView::Activity,
        workbench_width_bits: 420f32.to_bits(),
        expanded_chat_parts: vec!["tool-1".to_string()],
        browser_panel_open: true,
        browser_url: "https://example.com".to_string(),
        browser_title: "Example".to_string(),
    }
}

#[test]
fn first_visit_inherits_current_session_view_state() {
    let current = current_view();
    let mut states = SessionViewStates::new();

    let restored = states.get_or_insert("session-1", current.clone());

    assert_eq!(restored, current);
    assert_eq!(states.get("session-1"), Some(&current));
}

#[test]
fn captured_views_come_back_and_survive_storage() {
    let mut states = SessionViewStates::new();
    let mut captured = current_view();
    captured.auxiliary_view = AuxiliaryView::Browser;
    states.insert("s", captured.clone());
    let mut other = current_view();
    other.browser_url = "https://other".to_string();
    assert_eq!(states.get_or_insert("s", other.clone()), captured);
    states.insert("s", other.clone());
    assert_eq!(states.get("s"), Some(&other));
    assert_eq!(states.entries.len(), 1);
    let stored = captured.to_persisted();
    assert_eq!(stored.auxiliary_view, "browser");
    assert_eq!(SessionViewState::from_persisted(&stored), captured);
    let mut unknown = stored.clone();
    unknown.auxiliary_view = "weird".to_string();
    assert_eq!(
        SessionViewState::from_persisted(&unknown).auxiliary_view,
        AuxiliaryView::Changes
    );
    assert_eq!(f32::from_bits(stored.workbench_width_bits), 420.0);
}
