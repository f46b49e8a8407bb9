use mew_desktop::events::{ClientEvent, ConnectionStatus};
use mew_desktop::model::{ShellConnection, ShellModel};

#[test]
fn shell_model_tracks_connection_and_session_attachment() {
    let mut model = ShellModel::starting(Some("ws://127.0.0.1:25566".into()));
    model.apply_events(&[
        ClientEvent::ConnectionChanged(ConnectionStatus::Connected),
        ClientEvent::SessionReady {
            session_id: "session-1".into(),
        },
    ]);
    model.sync_attached_session(&Some("session-1".into()));

    assert_eq!(model.connection, ShellConnection::Connected);
    assert_eq!(model.ui.selected_session.as_deref(), Some("session-1"));
    assert_eq!(model.attached_session.as_deref(), Some("session-1"));
}

#[test]
fn shell_model_surfaces_reconnect_and_error_states() {
    let mut model = ShellModel::starting(None);
    model.apply_events(&[ClientEvent::ConnectionChanged(ConnectionStatus::Backoff {
        attempt: 2,
        error: "closed".into(),
    })]);
    assert_eq!(model.connection, ShellConnection::Reconnecting);

    model.apply_events(&[ClientEvent::Error("bad handshake".into())]);
    assert_eq!(model.connection, ShellConnection::Reconnecting);
    assert_eq!(model.last_error.as_deref(), Some("bad handshake"));
}

#[test]
fn daemon_errors_do_not_masquerade_as_connection_failures() {
    let mut model = ShellModel::starting(None);
    model.connected();
    model.apply_events(&[ClientEvent::Error("provider is not configured".into())]);

    assert_eq!(model.connection, ShellConnection::Connected);
    assert_eq!(
        model.last_error.as_deref(),
        Some("provider is not configured")
    );
}

#[test]
fn permission_mode_change_updates_the_composer_projection() {
    let mut model = ShellModel::starting(None);
    model.apply_events(&[ClientEvent::PermissionModeChanged {
        mode: "permissive".into(),
    }]);

    assert_eq!(model.ui.permission_mode.as_deref(), Some("permissive"));
}

#[test]
fn disconnected_state_surfaces_a_recoverable_error() {
    let mut model = ShellModel::starting(None);
    model.apply_events(&[ClientEvent::ConnectionChanged(
        ConnectionStatus::Disconnected,
    )]);

    assert_eq!(model.connection.label(), "connection failed");
    assert_eq!(
        model.last_error.as_deref(),
        Some("daemon connection closed")
    );
}

#[test]
fn session_selection_is_not_protocol_readiness() {
    let mut model = ShellModel::starting(None);
    model.ui.selected_session = Some("session-1".into());
    assert!(!model.session_is_ready());

    model.attached_session = Some("session-2".into());
    assert!(!model.session_is_ready());

    model.attached_session = Some("session-1".into());
    assert!(model.session_is_ready());
}

/// The transcript and pending actions of the previous session are held by
/// the UI model crate, which the library does not have; this checks what
/// the library holds of the same step: the attached session is dropped and
/// the model is no longer ready.
#[test]
fn pending_attach_hides_the_previous_session_projection() {
    let mut model = ShellModel::starting(None);
    model.attached_session = Some("session-a".into());
    model.ui.selected_session = Some("session-b".into());

    model.sync_attached_session_while_attaching(&Some("session-a".into()), "session-b");

    assert_eq!(model.attached_session, None);
    assert!(!model.session_is_ready());
}
