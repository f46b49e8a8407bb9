//! The shell's projection of the daemon connection: connection state,
//! attached session and the last error.
use vstd::prelude::*;
use crate::events::{ClientEvent, ConnectionStatus};
use crate::text::{clone_opt, opt_view, str_eq};

verus! {

#[derive(Debug, Clone, PartialEq, Eq)]
pub enum ShellConnection {
    Starting,
    Connecting,
    Connected,
    Reconnecting,
    Error(String),
}

/// Mathematical form of [`ShellConnection`].
pub enum ConnectionView {
    Starting,
    Connecting,
    Connected,
    Reconnecting,
    Error(Seq<char>),
}

impl View for ShellConnection {
    type V = ConnectionView;

    open spec fn view(&self) -> ConnectionView {
        match self {
            ShellConnection::Starting => ConnectionView::Starting,
            ShellConnection::Connecting => ConnectionView::Connecting,
            ShellConnection::Connected => ConnectionView::Connected,
            ShellConnection::Reconnecting => ConnectionView::Reconnecting,
            ShellConnection::Error(e) => ConnectionView::Error(e@),
        }
    }
}

/// The label shown for a connection state.
pub open spec fn connection_label(c: ConnectionView) -> Seq<char> {
    match c {
        ConnectionView::Starting => "starting"@,
        ConnectionView::Connecting => "connecting"@,
        ConnectionView::Connected => "connected"@,
        ConnectionView::Reconnecting => "reconnecting"@,
        ConnectionView::Error(_) => "connection failed"@,
    }
}

impl ShellConnection {
    pub fn label(&self) -> (r: &'static str)
        ensures
            r@ == connection_label(self@),
    {
        match self {
            ShellConnection::Starting => "starting",
            ShellConnection::Connecting => "connecting",
            ShellConnection::Connected => "connected",
            ShellConnection::Reconnecting => "reconnecting",
            ShellConnection::Error(_) => "connection failed",
        }
    }
}

/// How the connection indicator is colored.
#[derive(Clone, Copy, Debug, PartialEq, Eq)]
pub enum ConnectionTone {
    /// Connected.
    Good,
    /// Connecting or reconnecting.
    Pending,
    /// The connection failed.
    Failed,
    /// Not connecting yet.
    Idle,
}

/// The indicator's color for a connection state.
pub fn connection_tone(connection: &ShellConnection) -> (t: ConnectionTone)
    ensures
        t == (match connection {
            ShellConnection::Connected => ConnectionTone::Good,
            ShellConnection::Connecting | ShellConnection::Reconnecting => ConnectionTone::Pending,
            ShellConnection::Error(_) => ConnectionTone::Failed,
            ShellConnection::Starting => ConnectionTone::Idle,
        }),
{
    match connection {
        ShellConnection::Connected => ConnectionTone::Good,
        ShellConnection::Connecting | ShellConnection::Reconnecting => ConnectionTone::Pending,
        ShellConnection::Error(_) => ConnectionTone::Failed,
        ShellConnection::Starting => ConnectionTone::Idle,
    }
}

/// The parts of the UI projection that connection events update.
#[derive(Debug, Clone, PartialEq, Eq)]
pub struct UiState {
    pub selected_session: Option<String>,
    pub permission_mode: Option<String>,
}

#[derive(Debug, Clone, PartialEq, Eq)]
pub struct ShellModel {
    pub ui: UiState,
    pub endpoint: Option<String>,
    pub connection: ShellConnection,
    pub attached_session: Option<String>,
    pub last_error: Option<String>,
}

/// Mathematical form of [`ShellModel`].
pub struct ShellModelView {
    pub selected_session: Option<Seq<char>>,
    pub permission_mode: Option<Seq<char>>,
    pub endpoint: Option<Seq<char>>,
    pub connection: ConnectionView,
    pub attached_session: Option<Seq<char>>,
    pub last_error: Option<Seq<char>>,
}

impl View for ShellModel {
    type V = ShellModelView;

    open spec fn view(&self) -> ShellModelView {
        ShellModelView {
            selected_session: opt_view(self.ui.selected_session),
            permission_mode: opt_view(self.ui.permission_mode),
            endpoint: opt_view(self.endpoint),
            connection: self.connection@,
            attached_session: opt_view(self.attached_session),
            last_error: opt_view(self.last_error),
        }
    }
}

/// The error that a closed daemon connection reports.
pub open spec fn closed_message() -> Seq<char> {
    "daemon connection closed"@
}

/// The model after one client event.
pub open spec fn apply_event(m: ShellModelView, e: ClientEvent) -> ShellModelView {
    match e {
        ClientEvent::ConnectionChanged(status) => match status {
            ConnectionStatus::Connecting => ShellModelView { connection: ConnectionView::Connecting, ..m },
            ConnectionStatus::Connected => ShellModelView {
                connection: ConnectionView::Connected,
                last_error: None,
                ..m
            },
            ConnectionStatus::Backoff { .. } => ShellModelView {
                connection: ConnectionView::Reconnecting,
                ..m
            },
            ConnectionStatus::Disconnected => ShellModelView {
                connection: ConnectionView::Error(closed_message()),
                last_error: Some(closed_message()),
                ..m
            },
        },
        ClientEvent::SessionReady { session_id } => ShellModelView {
            selected_session: Some(session_id@),
            ..m
        },
        ClientEvent::SessionHistoryLoaded { session_id } => ShellModelView {
            selected_session: Some(session_id@),
            ..m
        },
        ClientEvent::PermissionModeChanged { mode } => ShellModelView { permission_mode: Some(mode@), ..m },
        ClientEvent::Error(message) => ShellModelView { last_error: Some(message@), ..m },
        _ => m,
    }
}

/// The model after a batch of events, applied in order.
pub open spec fn apply_all(m: ShellModelView, es: Seq<ClientEvent>) -> ShellModelView
    decreases es.len(),
{
    if es.len() == 0 {
        m
    } else {
        apply_event(apply_all(m, es.drop_last()), es.last())
    }
}

/// Whether the attached session is the selected one.
pub open spec fn session_ready(m: ShellModelView) -> bool {
    m.attached_session is Some && m.selected_session is Some && m.attached_session == m.selected_session
}

impl ShellModel {
    pub fn starting(endpoint: Option<String>) -> (m: ShellModel)
        ensures
            m@ == (ShellModelView {
                selected_session: None,
                permission_mode: None,
                endpoint: opt_view(endpoint),
                connection: ConnectionView::Starting,
                attached_session: None,
                last_error: None,
            }),
    {
        ShellModel {
            ui: UiState { selected_session: None, permission_mode: None },
            endpoint: endpoint,
            connection: ShellConnection::Starting,
            attached_session: None,
            last_error: None,
        }
    }

    /// Records a failure: the connection is in error and the error is kept.
    pub fn fail(&mut self, error: &str)
        ensures
            final(self)@ == (ShellModelView {
                connection: ConnectionView::Error(error@),
                last_error: Some(error@),
                ..old(self)@
            }),
    {
        self.connection = ShellConnection::Error(error.to_owned());
        self.last_error = Some(error.to_owned());
    }

    pub fn connected(&mut self)
        ensures
            final(self)@ == (ShellModelView {
                connection: ConnectionView::Connected,
                last_error: None,
                ..old(self)@
            }),
    {
        self.connection = ShellConnection::Connected;
        self.last_error = None;
    }

    /// Takes over the client's attached session.
    pub fn sync_attached_session(&mut self, attached: &Option<String>)
        ensures
            final(self)@ == (ShellModelView { attached_session: opt_view(*attached), ..old(self)@ }),
    {
        self.attached_session = clone_opt(attached);
    }

    /// Takes over the client's attached session while `target_session` is
    /// being attached: any other session counts as not attached yet.
    pub fn sync_attached_session_while_attaching(&mut self, attached: &Option<String>, target_session: &str)
        ensures
            final(self)@ == (ShellModelView {
                attached_session: if opt_view(*attached) == Some(target_session@) {
                    Some(target_session@)
                } else {
                    None
                },
                ..old(self)@
            }),
    {
        self.attached_session = clone_opt(attached);
        let same = match &self.attached_session {
            Some(s) => str_eq(s.as_str(), target_session),
            None => false,
        };
        if !same {
            self.attached_session = None;
        }
    }

    pub fn session_is_ready(&self) -> (b: bool)
        ensures
            b == session_ready(self@),
    {
        match (&self.attached_session, &self.ui.selected_session) {
            (Some(attached), Some(selected)) => str_eq(attached.as_str(), selected.as_str()),
            _ => false,
        }
    }

    /// Applies one event.
    fn apply_event(&mut self, event: &ClientEvent)
        ensures
            final(self)@ == apply_event(old(self)@, *event),
    {
        match event {
            ClientEvent::ConnectionChanged(status) => {
                match status {
                    ConnectionStatus::Connecting => {
                        self.connection = ShellConnection::Connecting;
                    },
                    ConnectionStatus::Connected => {
                        self.last_error = None;
                        self.connection = ShellConnection::Connected;
                    },
                    ConnectionStatus::Backoff { .. } => {
                        self.connection = ShellConnection::Reconnecting;
                    },
                    ConnectionStatus::Disconnected => {
                        self.last_error = Some("daemon connection closed".to_owned());
                        self.connection = ShellConnection::Error("daemon connection closed".to_owned());
                    },
                }
            },
            ClientEvent::SessionReady { session_id } => {
                self.ui.selected_session = Some(session_id.clone());
            },
            ClientEvent::SessionHistoryLoaded { session_id } => {
                self.ui.selected_session = Some(session_id.clone());
            },
            ClientEvent::PermissionModeChanged { mode } => {
                self.ui.permission_mode = Some(mode.clone());
            },
            ClientEvent::Error(message) => {
                self.last_error = Some(message.clone());
            },
            _ => {},
        }
    }

    /// Applies a batch of events in order.
    pub fn apply_events(&mut self, events: &[ClientEvent])
        ensures
            final(self)@ == apply_all(old(self)@, events@),
    {
        let ghost start = self@;
        let mut i: usize = 0;
        while i < events.len()
            invariant
                0 <= i <= events@.len(),
                self@ == apply_all(start, events@.take(i as int)),
            decreases events.len() - i,
        {
            self.apply_event(&events[i]);
            assert(events@.take(i + 1).drop_last() =~= events@.take(i as int));
            i = i + 1;
        }
        assert(events@.take(i as int) =~= events@);
    }
}


/// Daemon errors do not masquerade as connection failures: an error event
/// records the error and leaves the connection state as it was.
pub proof fn lemma_error_keeps_connection(m: ShellModelView, message: String)
    ensures
        apply_event(m, ClientEvent::Error(message)).connection == m.connection,
        apply_event(m, ClientEvent::Error(message)).last_error == Some(message@),
{
}

/// A closed connection is always reported as a recoverable error, with the
/// reason kept as the last error.
pub proof fn lemma_disconnect_reports_error(m: ShellModelView)
    ensures
        connection_label(apply_event(m, ClientEvent::ConnectionChanged(ConnectionStatus::Disconnected)).connection)
            == "connection failed"@,
        apply_event(m, ClientEvent::ConnectionChanged(ConnectionStatus::Disconnected)).last_error == Some(
            closed_message(),
        ),
{
}

/// Selecting a session is not readiness: the model is ready only when the
/// attached session is the selected one.
pub proof fn lemma_ready_needs_attachment(m: ShellModelView)
    ensures
        session_ready(m) ==> m.attached_session == m.selected_session && m.attached_session is Some,
        m.attached_session is None ==> !session_ready(m),
{
}

} // verus!
