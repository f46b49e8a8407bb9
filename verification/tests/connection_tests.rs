use mew_desktop::choices::RemoteProfile;
use mew_desktop::connection::{
    daemon_step, reconnect, retry_step, save_profile_choice, startup_connection, RetryStep,
};
use mew_desktop::labels::DesktopConnectionProfile;
use mew_desktop::model::ShellConnection;

fn saved(name: &str, node_id: &str) -> RemoteProfile {
    RemoteProfile {
        name: name.to_string(),
        node_id: node_id.to_string(),
        device_name: "laptop".to_string(),
    }
}

fn remote(node_id: &str) -> DesktopConnectionProfile {
    DesktopConnectionProfile::RemoteIroh {
        node_id: node_id.to_string(),
        pairing_token: None,
        device_name: "desk".to_string(),
    }
}

#[test]
fn a_new_remote_node_is_remembered_at_startup() {
    let start = startup_connection(
        Some(remote("n2")),
        Some("ws://local".to_string()),
        vec![saved("home", "n1")],
        Some("n1".to_string()),
    );
    assert_eq!(start.selection.as_deref(), Some("n2"));
    assert_eq!(start.profiles.len(), 2);
    assert_eq!(start.profiles[1].name, "remote daemon");
    assert_eq!(start.profiles[1].device_name, "desk");
    assert_eq!(start.profile, Some(remote("n2")));

    let known = startup_connection(Some(remote("n1")), None, vec![saved("home", "n1")], None);
    assert_eq!(known.profiles, vec![saved("home", "n1")]);
}

#[test]
fn without_a_remote_node_the_local_daemon_is_used() {
    let start = startup_connection(
        None,
        Some("ws://127.0.0.1:7777".to_string()),
        vec![saved("home", "n1")],
        Some("n1".to_string()),
    );
    assert_eq!(start.selection.as_deref(), Some("n1"));
    assert_eq!(
        start.profile,
        Some(DesktopConnectionProfile::LocalWebSocket {
            url: "ws://127.0.0.1:7777".to_string()
        })
    );
    let nothing = startup_connection(None, None, Vec::new(), None);
    assert_eq!(nothing.profile, None);
}

#[test]
fn retries_restart_owned_daemons_and_reuse_profiles() {
    let profile = Some(remote("n1"));
    assert_eq!(retry_step(true, &profile, true, true), RetryStep::Stay);
    assert_eq!(retry_step(false, &profile, true, true), RetryStep::RestartDaemon);
    assert_eq!(retry_step(false, &None, false, true), RetryStep::LaunchDaemon);
    assert_eq!(
        retry_step(false, &None, false, false),
        RetryStep::Fail("no daemon connection is configured".to_string())
    );
    assert_eq!(retry_step(false, &profile, false, false), RetryStep::Connect(remote("n1")));
    assert_eq!(
        daemon_step(Ok("ws://x".to_string())),
        RetryStep::Connect(DesktopConnectionProfile::LocalWebSocket {
            url: "ws://x".to_string()
        })
    );
    assert_eq!(daemon_step(Err("boom".to_string())), RetryStep::Fail("boom".to_string()));
}

#[test]
fn reconnecting_keeps_the_selected_session_pending() {
    let (model, pending, target) = reconnect(&remote("abc"), Some("s1".to_string()));
    assert_eq!(model.endpoint.as_deref(), Some("iroh://abc"));
    assert_eq!(model.connection, ShellConnection::Starting);
    assert_eq!(model.ui.selected_session.as_deref(), Some("s1"));
    assert!(pending);
    assert_eq!(target.as_deref(), Some("s1"));
    let (_, idle, none) = reconnect(&remote("abc"), None);
    assert!(!idle);
    assert_eq!(none, None);
}

#[test]
fn choosing_a_profile_saves_it_once() {
    let known = vec![saved("home", "n1"), saved("work", "n2")];
    let mut stored = vec![saved("home", "n1")];
    save_profile_choice(&Some("n2".to_string()), &known, &mut stored);
    assert_eq!(stored, known);
    save_profile_choice(&Some("n2".to_string()), &known, &mut stored);
    assert_eq!(stored.len(), 2);
    save_profile_choice(&Some("n9".to_string()), &known, &mut stored);
    save_profile_choice(&None, &known, &mut stored);
    assert_eq!(stored.len(), 2);
}
