//! How the shell picks and retries its daemon connection: the profile it
//! starts with, the saved remote profiles, and the steps of a retry.
use vstd::prelude::*;
use crate::choices::RemoteProfile;
use crate::labels::DesktopConnectionProfile;
use crate::model::{ConnectionView, ShellModel, ShellModelView};
use crate::text::{clone_opt, opt_view, str_eq};

verus! {

/// The name given to a remote profile first met on the command line.
pub open spec fn new_profile_name() -> Seq<char> {
    "remote daemon"@
}

/// Whether a profile for `node` is among `profiles`.
pub open spec fn has_profile(profiles: Seq<RemoteProfile>, node: Seq<char>) -> bool {
    exists|i: int| 0 <= i < profiles.len() && #[trigger] profiles[i].node_id@ == node
}

/// Whether a profile for `node` is among `profiles`.
fn has_profile_exec(profiles: &Vec<RemoteProfile>, node: &str) -> (b: bool)
    ensures
        b == has_profile(profiles@, node@),
{
    let mut i: usize = 0;
    while i < profiles.len()
        invariant
            0 <= i <= profiles@.len(),
            forall|j: int| 0 <= j < i ==> #[trigger] profiles@[j].node_id@ != node@,
        decreases profiles@.len() - i,
    {
        if str_eq(profiles[i].node_id.as_str(), node) {
            return true;
        }
        i = i + 1;
    }
    false
}

/// The connection the shell starts with.
#[derive(Clone, Debug, PartialEq, Eq)]
pub struct StartupConnection {
    /// The remote profile marked as chosen in the connection picker.
    pub selection: Option<String>,
    /// The known remote profiles.
    pub profiles: Vec<RemoteProfile>,
    /// The profile to connect with, if any.
    pub profile: Option<DesktopConnectionProfile>,
}

/// The startup connection: the remote profile if one was given (added to
/// the known profiles, as `remote daemon`, when its node is new), else the
/// local daemon's WebSocket; the picker shows the given remote node, else
/// the saved active one.
pub fn startup_connection(
    remote: Option<DesktopConnectionProfile>,
    endpoint_url: Option<String>,
    saved: Vec<RemoteProfile>,
    active: Option<String>,
) -> (r: StartupConnection)
    ensures
        opt_view(r.selection) == (match remote {
            Some(DesktopConnectionProfile::RemoteIroh { node_id, .. }) => Some(node_id@),
            _ => opt_view(active),
        }),
        match remote {
            Some(DesktopConnectionProfile::RemoteIroh { node_id, device_name, .. }) => if has_profile(
                saved@,
                node_id@,
            ) {
                r.profiles@ == saved@
            } else {
                &&& r.profiles@.len() == saved@.len() + 1
                &&& r.profiles@.take(saved@.len() as int) == saved@
                &&& r.profiles@.last().name@ == new_profile_name()
                &&& r.profiles@.last().node_id@ == node_id@
                &&& r.profiles@.last().device_name@ == device_name@
            },
            _ => r.profiles@ == saved@,
        },
        r.profile == (match remote {
            Some(p) => Some(p),
            None => match endpoint_url {
                Some(url) => Some(DesktopConnectionProfile::LocalWebSocket { url }),
                None => None,
            },
        }),
{
    let mut profiles = saved;
    let selection = match &remote {
        Some(DesktopConnectionProfile::RemoteIroh { node_id, device_name, .. }) => {
            if !has_profile_exec(&profiles, node_id.as_str()) {
                let ghost before = profiles@;
                profiles.push(
                    RemoteProfile {
                        name: String::from_str("remote daemon"),
                        node_id: node_id.clone(),
                        device_name: device_name.clone(),
                    },
                );
                assert(profiles@.take(before.len() as int) =~= before);
            }
            Some(node_id.clone())
        },
        _ => active,
    };
    let profile = match remote {
        Some(p) => Some(p),
        None => match endpoint_url {
            Some(url) => Some(DesktopConnectionProfile::LocalWebSocket { url }),
            None => None,
        },
    };
    StartupConnection { selection, profiles, profile }
}

/// A step of retrying the daemon connection.
#[derive(Clone, Debug, PartialEq, Eq)]
pub enum RetryStep {
    /// The shell is quitting: nothing happens.
    Stay,
    /// The retry failed with this error.
    Fail(String),
    /// Restart the daemon this shell owns, then connect to it.
    RestartDaemon,
    /// Connect to the local daemon, launching it if needed.
    LaunchDaemon,
    /// Connect with this profile.
    Connect(DesktopConnectionProfile),
}

/// The error of a retry with nothing to connect to.
pub open spec fn no_connection_message() -> Seq<char> {
    "no daemon connection is configured"@
}

/// A copy of a connection profile.
fn copy_profile(p: &DesktopConnectionProfile) -> (r: DesktopConnectionProfile)
    ensures
        r == *p,
{
    match p {
        DesktopConnectionProfile::LocalWebSocket { url } => DesktopConnectionProfile::LocalWebSocket { url: url.clone() },
        DesktopConnectionProfile::RemoteIroh { node_id, pairing_token, device_name } => {
            let token = match pairing_token {
                Some(t) => Some(t.clone()),
                None => None,
            };
            DesktopConnectionProfile::RemoteIroh {
                node_id: node_id.clone(),
                pairing_token: token,
                device_name: device_name.clone(),
            }
        },
    }
}

/// The first step of a retry: nothing while quitting; the daemon this
/// shell owns is restarted; without a profile the local daemon is reached
/// (an error without a daemon supervisor); else the profile is used again.
pub fn retry_step(
    quitting: bool,
    profile: &Option<DesktopConnectionProfile>,
    owns_daemon: bool,
    has_supervisor: bool,
) -> (r: RetryStep)
    ensures
        quitting ==> r == RetryStep::Stay,
        !quitting && (profile is None || owns_daemon) && !has_supervisor ==> (r matches RetryStep::Fail(m)
            && m@ == no_connection_message()),
        !quitting && owns_daemon && has_supervisor ==> r == RetryStep::RestartDaemon,
        !quitting && profile is None && !owns_daemon && has_supervisor ==> r == RetryStep::LaunchDaemon,
        !quitting && profile is Some && !owns_daemon ==> (r matches RetryStep::Connect(p) && Some(p) == *profile),
{
    if quitting {
        return RetryStep::Stay;
    }
    if profile.is_none() || owns_daemon {
        if !has_supervisor {
            return RetryStep::Fail(String::from_str("no daemon connection is configured"));
        }
        if owns_daemon {
            return RetryStep::RestartDaemon;
        }
        return RetryStep::LaunchDaemon;
    }
    match profile {
        Some(p) => RetryStep::Connect(copy_profile(p)),
        None => RetryStep::LaunchDaemon,
    }
}

/// The step after the daemon was restarted or reached: connect to its
/// WebSocket, or fail with its error.
pub fn daemon_step(result: Result<String, String>) -> (r: RetryStep)
    ensures
        match result {
            Ok(url) => r == RetryStep::Connect(DesktopConnectionProfile::LocalWebSocket { url }),
            Err(e) => r == RetryStep::Fail(e),
        },
{
    match result {
        Ok(url) => RetryStep::Connect(DesktopConnectionProfile::LocalWebSocket { url }),
        Err(e) => RetryStep::Fail(e),
    }
}

/// The shell's state when connecting anew with `profile`: a starting model
/// for the profile's endpoint that keeps the selected session, and a
/// pending request for that session, if any.
pub fn reconnect(profile: &DesktopConnectionProfile, selected_session: Option<String>) -> (r: (
    ShellModel,
    bool,
    Option<String>,
))
    ensures
        r.0@ == (ShellModelView {
            selected_session: opt_view(selected_session),
            permission_mode: None,
            endpoint: Some(
                match profile {
                    DesktopConnectionProfile::LocalWebSocket { url } => url@,
                    DesktopConnectionProfile::RemoteIroh { node_id, .. } => "iroh://"@ + node_id@,
                },
            ),
            connection: ConnectionView::Starting,
            attached_session: None,
            last_error: None,
        }),
        r.1 == (selected_session is Some),
        opt_view(r.2) == opt_view(selected_session),
{
    let mut model = ShellModel::starting(Some(profile.endpoint_label()));
    model.ui.selected_session = clone_opt(&selected_session);
    let pending = selected_session.is_some();
    (model, pending, selected_session)
}

/// Saves the choice of remote profile `node_id`: its known profile is added
/// to the saved ones unless a profile for that node is already saved.
pub fn save_profile_choice(node_id: &Option<String>, known: &Vec<RemoteProfile>, saved: &mut Vec<RemoteProfile>)
    ensures
        match node_id {
            Some(n) => match crate::choices::find_profile(known@, n@) {
                Some(p) => if has_profile(old(saved)@, n@) {
                    final(saved)@ == old(saved)@
                } else {
                    final(saved)@.len() == old(saved)@.len() + 1 && final(saved)@.take(old(saved)@.len() as int)
                        == old(saved)@ && final(saved)@.last().node_id@ == p.node_id@
                        && final(saved)@.last().device_name@ == p.device_name@ && final(saved)@.last().name@
                        == p.name@
                },
                None => final(saved)@ == old(saved)@,
            },
            None => final(saved)@ == old(saved)@,
        },
{
    if let Some(n) = node_id {
        if let Some(p) = crate::choices::find_profile_exec(known.as_slice(), n.as_str()) {
            if !has_profile_exec(saved, n.as_str()) {
                let ghost before = saved@;
                saved.push(
                    RemoteProfile { name: p.name.clone(), node_id: p.node_id.clone(), device_name: p.device_name.clone() },
                );
                assert(saved@.take(before.len() as int) =~= before);
            }
        }
    }
}

} // verus!
