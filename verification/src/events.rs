//! Client events from the daemon connection and the decisions the shell
//! takes on them: what to re-render, what to re-sync, what snapshot to take.
use vstd::prelude::*;
use crate::text::opt_view;

verus! {

/// State of the daemon connection as the client reports it.
#[derive(Debug, Clone, PartialEq, Eq)]
pub enum ConnectionStatus {
    Connecting,
    Connected,
    Backoff { attempt: u32, error: String },
    Disconnected,
}

/// The events that the daemon client delivers to the shell.
#[derive(Debug, Clone, PartialEq, Eq)]
pub enum ClientEvent {
    ConnectionChanged(ConnectionStatus),
    SessionReady { session_id: String },
    SessionHistoryLoaded { session_id: String },
    SessionListChanged,
    SessionMetaChanged { session_id: String },
    MessageChanged { session_id: String },
    RequiredActionChanged { session_id: String, request_id: String },
    RequestResolved { session_id: String, request_id: String },
    TextDelta { session_id: String, part_id: String, delta: String },
    ToolProgress { session_id: String, call_id: String, chunk: String },
    TerminalOpened { terminal_id: String },
    TerminalOutput { terminal_id: String, bytes: Vec<u8> },
    TerminalExited { terminal_id: String, status: String },
    TerminalError { terminal_id: Option<String>, message: String },
    PermissionModeChanged { mode: String },
    SubagentsChanged { session_id: String },
    TodosChanged { session_id: String },
    UsageChanged { session_id: String },
    FlaggedFilesChanged { session_id: String },
    FileTreeChanged,
    BrowserStateChanged { open: bool, url: Option<String>, title: Option<String> },
    BrowserSnapshot { url: String, title: String },
    BrowserScreenshot { url: String },
    BrowserError { message: String },
    Error(String),
}

/// Streaming events: text deltas and tool progress.
pub open spec fn is_streaming_event(e: ClientEvent) -> bool {
    e is TextDelta || e is ToolProgress
}

/// Events after which the session metadata must be synced again: all but
/// streaming, terminal and permission-mode events.
pub open spec fn needs_metadata_sync(e: ClientEvent) -> bool {
    !(e is TextDelta || e is ToolProgress || e is TerminalOpened || e is TerminalOutput
        || e is TerminalExited || e is TerminalError || e is PermissionModeChanged)
}

/// Events that need a full transcript snapshot.
pub open spec fn needs_transcript_snapshot(e: ClientEvent) -> bool {
    e is SessionReady || e is SessionHistoryLoaded || e is MessageChanged || e is RequiredActionChanged
        || e is RequestResolved
}

/// Events about the attached session's activity (subagents, todos, usage,
/// flagged files), which metadata-only snapshots omit.
pub open spec fn needs_session_snapshot(e: ClientEvent) -> bool {
    e is SubagentsChanged || e is TodosChanged || e is UsageChanged || e is FlaggedFilesChanged
}

/// Whether the event is a text delta.
pub fn client_event_is_text_delta(event: &ClientEvent) -> (b: bool)
    ensures
        b == (*event is TextDelta),
{
    matches!(event, ClientEvent::TextDelta { .. })
}

/// Whether the event is terminal output.
fn is_terminal_output(event: &ClientEvent) -> (b: bool)
    ensures
        b == (*event is TerminalOutput),
{
    matches!(event, ClientEvent::TerminalOutput { .. })
}

/// A batch needs the shell to render unless it is made of terminal output
/// only; an empty batch always renders.
pub fn client_events_require_shell_render(events: &[ClientEvent]) -> (b: bool)
    ensures
        b == (events@.len() == 0 || exists|i: int| 0 <= i < events@.len() && !(#[trigger] events@[i] is TerminalOutput)),
{
    if events.len() == 0 {
        return true;
    }
    let mut i: usize = 0;
    while i < events.len()
        invariant
            0 <= i <= events@.len(),
            forall|j: int| 0 <= j < i ==> #[trigger] events@[j] is TerminalOutput,
        decreases events.len() - i,
    {
        if !is_terminal_output(&events[i]) {
            return true;
        }
        i = i + 1;
    }
    false
}

/// Whether the event is a streaming event.
fn is_streaming(event: &ClientEvent) -> (b: bool)
    ensures
        b == is_streaming_event(*event),
{
    matches!(event, ClientEvent::TextDelta { .. } | ClientEvent::ToolProgress { .. })
}

/// A batch is streaming-only when it is non-empty and holds only text deltas
/// and tool progress.
pub fn client_events_are_streaming_only(events: &[ClientEvent]) -> (b: bool)
    ensures
        b == (events@.len() > 0 && forall|i: int| 0 <= i < events@.len() ==> is_streaming_event(#[trigger] events@[i])),
{
    if events.len() == 0 {
        return false;
    }
    let mut i: usize = 0;
    while i < events.len()
        invariant
            0 <= i <= events@.len(),
            forall|j: int| 0 <= j < i ==> is_streaming_event(#[trigger] events@[j]),
        decreases events.len() - i,
    {
        if !is_streaming(&events[i]) {
            return false;
        }
        i = i + 1;
    }
    true
}

/// Whether the event requires the session metadata to be synced.
pub fn client_event_requires_metadata_sync(event: &ClientEvent) -> (b: bool)
    ensures
        b == needs_metadata_sync(*event),
{
    !matches!(
        event,
        ClientEvent::TextDelta { .. } | ClientEvent::ToolProgress { .. } | ClientEvent::TerminalOpened { .. }
            | ClientEvent::TerminalOutput { .. } | ClientEvent::TerminalExited { .. }
            | ClientEvent::TerminalError { .. } | ClientEvent::PermissionModeChanged { .. }
    )
}

/// A batch requires a metadata sync when it is empty or any event does.
pub fn client_update_requires_metadata_sync(events: &[ClientEvent]) -> (b: bool)
    ensures
        b == (events@.len() == 0 || exists|i: int| 0 <= i < events@.len() && needs_metadata_sync(#[trigger] events@[i])),
{
    if events.len() == 0 {
        return true;
    }
    let mut i: usize = 0;
    while i < events.len()
        invariant
            0 <= i <= events@.len(),
            forall|j: int| 0 <= j < i ==> !needs_metadata_sync(#[trigger] events@[j]),
        decreases events.len() - i,
    {
        if client_event_requires_metadata_sync(&events[i]) {
            return true;
        }
        i = i + 1;
    }
    false
}

/// Whether the event requires a full transcript snapshot.
pub fn client_event_requires_transcript_snapshot(event: &ClientEvent) -> (b: bool)
    ensures
        b == needs_transcript_snapshot(*event),
{
    matches!(
        event,
        ClientEvent::SessionReady { .. } | ClientEvent::SessionHistoryLoaded { .. }
            | ClientEvent::MessageChanged { .. } | ClientEvent::RequiredActionChanged { .. }
            | ClientEvent::RequestResolved { .. }
    )
}

/// Whether the event requires a full session snapshot.
pub fn client_event_requires_session_snapshot(event: &ClientEvent) -> (b: bool)
    ensures
        b == needs_session_snapshot(*event),
{
    matches!(
        event,
        ClientEvent::SubagentsChanged { .. } | ClientEvent::TodosChanged { .. }
            | ClientEvent::UsageChanged { .. } | ClientEvent::FlaggedFilesChanged { .. }
    )
}


/// A streaming-only batch never needs a metadata sync: streaming events are
/// applied incrementally.
pub proof fn lemma_streaming_needs_no_metadata_sync(events: Seq<ClientEvent>)
    requires
        events.len() > 0,
        forall|i: int| 0 <= i < events.len() ==> is_streaming_event(#[trigger] events[i]),
    ensures
        !(exists|i: int| 0 <= i < events.len() && needs_metadata_sync(#[trigger] events[i])),
{
}

/// A batch of terminal output only never re-renders the shell, and never
/// needs a metadata sync.
pub proof fn lemma_terminal_output_is_quiet(events: Seq<ClientEvent>)
    requires
        events.len() > 0,
        forall|i: int| 0 <= i < events.len() ==> #[trigger] events[i] is TerminalOutput,
    ensures
        !(exists|i: int| 0 <= i < events.len() && !(#[trigger] events[i] is TerminalOutput)),
        !(exists|i: int| 0 <= i < events.len() && needs_metadata_sync(#[trigger] events[i])),
{
}


/// Events from the embedded browser.
pub open spec fn is_browser_event(e: ClientEvent) -> bool {
    e is BrowserStateChanged || e is BrowserSnapshot || e is BrowserScreenshot || e is BrowserError
}

/// Events after which open tabs take their titles again.
pub open spec fn retitles_tabs(e: ClientEvent) -> bool {
    e is SessionListChanged || e is SessionMetaChanged || e is SessionReady || e is SessionHistoryLoaded
}

/// Events after which the workspace changes are loaded again.
pub open spec fn refreshes_changes(e: ClientEvent) -> bool {
    e is SessionReady || e is SessionHistoryLoaded || e is MessageChanged || e is FlaggedFilesChanged
        || e is SessionMetaChanged
}

/// The session of the first session-ready event.
pub open spec fn first_ready(es: Seq<ClientEvent>) -> Option<Seq<char>>
    decreases es.len(),
{
    if es.len() == 0 {
        None
    } else {
        match es[0] {
            ClientEvent::SessionReady { session_id } => Some(session_id@),
            _ => first_ready(es.drop_first()),
        }
    }
}

/// What the shell does after a batch of client events.
pub struct UpdatePlan {
    /// The session of the first session-ready event.
    pub ready_session: Option<String>,
    /// A browser event arrived: the session's view state is captured.
    pub browser_event: bool,
    /// The session metadata is synced and the sidebar rebuilt.
    pub sync_metadata: bool,
    /// The workspace file tree changed.
    pub file_tree_changed: bool,
    /// Open tabs take their titles again.
    pub refresh_tab_titles: bool,
    /// The workspace changes are loaded again.
    pub refresh_changes: bool,
    /// Text deltas are appended to the transcript.
    pub append_deltas: bool,
    /// A full transcript snapshot is wanted.
    pub transcript_snapshot: bool,
    /// The session list changed.
    pub session_list_changed: bool,
}

/// Some event of `es` satisfies `p`.
pub open spec fn any_event(es: Seq<ClientEvent>, p: spec_fn(ClientEvent) -> bool) -> bool {
    exists|i: int| 0 <= i < es.len() && p(#[trigger] es[i])
}

/// `plan` is what the shell does after the events `es` (see the fields of
/// [`UpdatePlan`]).
pub open spec fn plans(plan: UpdatePlan, es: Seq<ClientEvent>) -> bool {
    &&& opt_view(plan.ready_session) == first_ready(es)
    &&& plan.browser_event == any_event(es, |e: ClientEvent| is_browser_event(e))
    &&& plan.sync_metadata == (es.len() == 0 || any_event(es, |e: ClientEvent| needs_metadata_sync(e)))
    &&& plan.file_tree_changed == any_event(es, |e: ClientEvent| e is FileTreeChanged)
    &&& plan.refresh_tab_titles == any_event(es, |e: ClientEvent| retitles_tabs(e))
    &&& plan.refresh_changes == any_event(es, |e: ClientEvent| refreshes_changes(e))
    &&& plan.append_deltas == any_event(es, |e: ClientEvent| e is TextDelta)
    &&& plan.transcript_snapshot == any_event(es, |e: ClientEvent| needs_transcript_snapshot(e))
    &&& plan.session_list_changed == any_event(es, |e: ClientEvent| e is SessionListChanged)
}

/// Decides what the shell does after a batch of client events.
pub fn plan_client_update(events: &[ClientEvent]) -> (plan: UpdatePlan)
    ensures
        plans(plan, events@),
        opt_view(plan.ready_session) == first_ready(events@),
        plan.browser_event == any_event(events@, |e: ClientEvent| is_browser_event(e)),
        plan.sync_metadata == (events@.len() == 0 || any_event(events@, |e: ClientEvent| needs_metadata_sync(e))),
        plan.file_tree_changed == any_event(events@, |e: ClientEvent| e is FileTreeChanged),
        plan.refresh_tab_titles == any_event(events@, |e: ClientEvent| retitles_tabs(e)),
        plan.refresh_changes == any_event(events@, |e: ClientEvent| refreshes_changes(e)),
        plan.append_deltas == any_event(events@, |e: ClientEvent| e is TextDelta),
        plan.transcript_snapshot == any_event(events@, |e: ClientEvent| needs_transcript_snapshot(e)),
        plan.session_list_changed == any_event(events@, |e: ClientEvent| e is SessionListChanged),
{
    let ghost es = events@;
    let mut plan = UpdatePlan {
        ready_session: None,
        browser_event: false,
        sync_metadata: events.len() == 0,
        file_tree_changed: false,
        refresh_tab_titles: false,
        refresh_changes: false,
        append_deltas: false,
        transcript_snapshot: false,
        session_list_changed: false,
    };
    let mut i: usize = 0;
    assert(es.skip(0) =~= es);
    while i < events.len()
        invariant
            0 <= i <= es.len(),
            es == events@,
            first_ready(es) == (match opt_view(plan.ready_session) {
                Some(id) => Some(id),
                None => first_ready(es.skip(i as int)),
            }),
            plan.ready_session is None ==> forall|j: int| 0 <= j < i ==> !(#[trigger] es[j] is SessionReady),
            plan.browser_event == exists|j: int| 0 <= j < i && is_browser_event(#[trigger] es[j]),
            plan.sync_metadata == (es.len() == 0 || exists|j: int| 0 <= j < i && needs_metadata_sync(#[trigger] es[j])),
            plan.file_tree_changed == exists|j: int| 0 <= j < i && #[trigger] es[j] is FileTreeChanged,
            plan.refresh_tab_titles == exists|j: int| 0 <= j < i && retitles_tabs(#[trigger] es[j]),
            plan.refresh_changes == exists|j: int| 0 <= j < i && refreshes_changes(#[trigger] es[j]),
            plan.append_deltas == exists|j: int| 0 <= j < i && #[trigger] es[j] is TextDelta,
            plan.transcript_snapshot == exists|j: int| 0 <= j < i && needs_transcript_snapshot(#[trigger] es[j]),
            plan.session_list_changed == exists|j: int| 0 <= j < i && #[trigger] es[j] is SessionListChanged,
        decreases events.len() - i,
    {
        let e = &events[i];
        proof {
            assert(es.skip(i as int)[0] == es[i as int]);
            assert(es.skip(i as int).drop_first() =~= es.skip(i + 1));
        }
        if plan.ready_session.is_none() {
            if let ClientEvent::SessionReady { session_id } = e {
                plan.ready_session = Some(session_id.clone());
            }
        }
        if matches!(
            e,
            ClientEvent::BrowserStateChanged { .. } | ClientEvent::BrowserSnapshot { .. }
                | ClientEvent::BrowserScreenshot { .. } | ClientEvent::BrowserError { .. }
        ) {
            plan.browser_event = true;
        }
        if client_event_requires_metadata_sync(e) {
            plan.sync_metadata = true;
        }
        if matches!(e, ClientEvent::FileTreeChanged) {
            plan.file_tree_changed = true;
        }
        if matches!(
            e,
            ClientEvent::SessionListChanged | ClientEvent::SessionMetaChanged { .. }
                | ClientEvent::SessionReady { .. } | ClientEvent::SessionHistoryLoaded { .. }
        ) {
            plan.refresh_tab_titles = true;
        }
        if matches!(
            e,
            ClientEvent::SessionReady { .. } | ClientEvent::SessionHistoryLoaded { .. }
                | ClientEvent::MessageChanged { .. } | ClientEvent::FlaggedFilesChanged { .. }
                | ClientEvent::SessionMetaChanged { .. }
        ) {
            plan.refresh_changes = true;
        }
        if matches!(e, ClientEvent::TextDelta { .. }) {
            plan.append_deltas = true;
        }
        if client_event_requires_transcript_snapshot(e) {
            plan.transcript_snapshot = true;
        }
        if matches!(e, ClientEvent::SessionListChanged) {
            plan.session_list_changed = true;
        }
        i = i + 1;
    }
    assert(es.skip(i as int) =~= Seq::<ClientEvent>::empty());
    plan
}

/// A session-ready event completes a pending session request when no
/// other session is being attached.
pub fn session_request_completed(
    ready_session: Option<&str>,
    pending_request: bool,
    pending_target: Option<&str>,
) -> (b: bool)
    ensures
        b == (match ready_session {
            Some(id) => pending_request && match pending_target {
                Some(t) => t@ == id@,
                None => true,
            },
            None => false,
        }),
{
    match ready_session {
        Some(id) => pending_request && match pending_target {
            Some(t) => crate::text::str_eq(t, id),
            None => true,
        },
        None => false,
    }
}

} // verus!
