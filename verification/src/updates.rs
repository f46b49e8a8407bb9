//! What a batch of client events does to the shell besides its model: the
//! remote terminal, the browser panel, and the hand-off once a requested
//! session is ready.
use vstd::prelude::*;
use crate::events::{plan_client_update, plans, ClientEvent, UpdatePlan};
use crate::model::{apply_all, ShellModel, ShellModelView};
use crate::sessions::{
    selection_after_update, settle_selection_and_tabs, tabs_after_update, tabs_view, ConversationItem,
    OpenConversationTab,
};
use crate::text::{opt_view, str_eq};

verus! {

/// The terminal and browser state that client events update.
#[derive(Clone, Debug, PartialEq, Eq)]
pub struct ShellSurfaces {
    pub terminal_id: Option<String>,
    pub terminal_status: String,
    pub browser_open: bool,
    pub browser_url: String,
    pub browser_title: String,
    pub browser_error: Option<String>,
}

/// Mathematical form of [`ShellSurfaces`].
pub struct SurfacesView {
    pub terminal_id: Option<Seq<char>>,
    pub terminal_status: Seq<char>,
    pub browser_open: bool,
    pub browser_url: Seq<char>,
    pub browser_title: Seq<char>,
    pub browser_error: Option<Seq<char>>,
}

impl View for ShellSurfaces {
    type V = SurfacesView;

    open spec fn view(&self) -> SurfacesView {
        SurfacesView {
            terminal_id: opt_view(self.terminal_id),
            terminal_status: self.terminal_status@,
            browser_open: self.browser_open,
            browser_url: self.browser_url@,
            browser_title: self.browser_title@,
            browser_error: opt_view(self.browser_error),
        }
    }
}

/// What the terminal view does for an event.
#[derive(Clone, Debug, PartialEq, Eq)]
pub enum TerminalEffect {
    /// Clear the screen of a newly opened terminal.
    Clear,
    /// Feed output of the open terminal to the screen.
    Ingest(Vec<u8>),
}

/// Mathematical form of a [`TerminalEffect`].
pub enum EffectView {
    Clear,
    Ingest(Seq<u8>),
}

pub open spec fn effect_view(e: TerminalEffect) -> EffectView {
    match e {
        TerminalEffect::Clear => EffectView::Clear,
        TerminalEffect::Ingest(bytes) => EffectView::Ingest(bytes@),
    }
}

/// The event concerns the open terminal.
pub open spec fn is_open_terminal(s: SurfacesView, id: Seq<char>) -> bool {
    s.terminal_id == Some(id)
}

/// The surfaces after one event: a terminal opening becomes the open one
/// and runs; output and exit of the open terminal set its status, and so
/// does an error that names no terminal or the open one; browser events
/// show the panel's state, page and error.
pub open spec fn surfaces_after(s: SurfacesView, e: ClientEvent) -> SurfacesView {
    match e {
        ClientEvent::TerminalOpened { terminal_id } => SurfacesView {
            terminal_id: Some(terminal_id@),
            terminal_status: "running"@,
            ..s
        },
        ClientEvent::TerminalOutput { terminal_id, .. } => if is_open_terminal(s, terminal_id@) {
            SurfacesView { terminal_status: "running"@, ..s }
        } else {
            s
        },
        ClientEvent::TerminalExited { terminal_id, status } => if is_open_terminal(s, terminal_id@) {
            SurfacesView { terminal_status: status@, ..s }
        } else {
            s
        },
        ClientEvent::TerminalError { terminal_id, message } => if match terminal_id {
            Some(id) => is_open_terminal(s, id@),
            None => true,
        } {
            SurfacesView { terminal_status: message@, ..s }
        } else {
            s
        },
        ClientEvent::BrowserStateChanged { open, url, title } => SurfacesView {
            browser_open: open,
            browser_url: match url {
                Some(u) => u@,
                None => s.browser_url,
            },
            browser_title: match title {
                Some(t) => t@,
                None => s.browser_title,
            },
            browser_error: None,
            ..s
        },
        ClientEvent::BrowserSnapshot { url, title } => SurfacesView {
            browser_open: true,
            browser_url: url@,
            browser_title: title@,
            browser_error: None,
            ..s
        },
        ClientEvent::BrowserScreenshot { url } => SurfacesView { browser_open: true, browser_url: url@, ..s },
        ClientEvent::BrowserError { message } => SurfacesView { browser_error: Some(message@), ..s },
        _ => s,
    }
}

/// The terminal effect of one event, if any.
pub open spec fn terminal_effect(s: SurfacesView, e: ClientEvent) -> Option<EffectView> {
    match e {
        ClientEvent::TerminalOpened { .. } => Some(EffectView::Clear),
        ClientEvent::TerminalOutput { terminal_id, bytes } => if is_open_terminal(s, terminal_id@) {
            Some(EffectView::Ingest(bytes@))
        } else {
            None
        },
        _ => None,
    }
}

/// The surfaces after the first `n` events, in order.
pub open spec fn surfaces_after_all(s: SurfacesView, es: Seq<ClientEvent>, n: int) -> SurfacesView
    decreases n,
{
    if n <= 0 {
        s
    } else {
        surfaces_after(surfaces_after_all(s, es, n - 1), es[n - 1])
    }
}

/// The terminal effects of the first `n` events, in order.
pub open spec fn effects_of(s: SurfacesView, es: Seq<ClientEvent>, n: int) -> Seq<EffectView>
    decreases n,
{
    if n <= 0 {
        Seq::empty()
    } else {
        let before = effects_of(s, es, n - 1);
        match terminal_effect(surfaces_after_all(s, es, n - 1), es[n - 1]) {
            Some(effect) => before.push(effect),
            None => before,
        }
    }
}

/// Whether `id` names the open terminal.
fn names_open_terminal(open: &Option<String>, id: &str) -> (b: bool)
    ensures
        b == (opt_view(*open) == Some(id@)),
{
    match open {
        Some(t) => str_eq(t.as_str(), id),
        None => false,
    }
}

impl ShellSurfaces {
    /// Applies one event (see `surfaces_after`) and returns its terminal
    /// effect (see `terminal_effect`).
    pub fn apply(&mut self, event: &ClientEvent) -> (r: Option<TerminalEffect>)
        ensures
            final(self)@ == surfaces_after(old(self)@, *event),
            match r {
                Some(e) => terminal_effect(old(self)@, *event) == Some(effect_view(e)),
                None => terminal_effect(old(self)@, *event) is None,
            },
    {
        match event {
            ClientEvent::TerminalOpened { terminal_id } => {
                self.terminal_id = Some(terminal_id.clone());
                self.terminal_status = String::from_str("running");
                Some(TerminalEffect::Clear)
            },
            ClientEvent::TerminalOutput { terminal_id, bytes } => {
                if names_open_terminal(&self.terminal_id, terminal_id.as_str()) {
                    self.terminal_status = String::from_str("running");
                    Some(TerminalEffect::Ingest(copy_bytes(bytes)))
                } else {
                    None
                }
            },
            ClientEvent::TerminalExited { terminal_id, status } => {
                if names_open_terminal(&self.terminal_id, terminal_id.as_str()) {
                    self.terminal_status = status.clone();
                }
                None
            },
            ClientEvent::TerminalError { terminal_id, message } => {
                let applies = match terminal_id {
                    Some(id) => names_open_terminal(&self.terminal_id, id.as_str()),
                    None => true,
                };
                if applies {
                    self.terminal_status = message.clone();
                }
                None
            },
            ClientEvent::BrowserStateChanged { open, url, title } => {
                self.browser_open = *open;
                if let Some(u) = url {
                    self.browser_url = u.clone();
                }
                if let Some(t) = title {
                    self.browser_title = t.clone();
                }
                self.browser_error = None;
                None
            },
            ClientEvent::BrowserSnapshot { url, title } => {
                self.browser_open = true;
                self.browser_url = url.clone();
                self.browser_title = title.clone();
                self.browser_error = None;
                None
            },
            ClientEvent::BrowserScreenshot { url } => {
                self.browser_open = true;
                self.browser_url = url.clone();
                None
            },
            ClientEvent::BrowserError { message } => {
                self.browser_error = Some(message.clone());
                None
            },
            _ => None,
        }
    }

    /// Applies a batch of events in order (see `surfaces_after_all`) and
    /// returns their terminal effects (see `effects_of`).
    pub fn apply_all(&mut self, events: &[ClientEvent]) -> (r: Vec<TerminalEffect>)
        ensures
            final(self)@ == surfaces_after_all(old(self)@, events@, events@.len() as int),
            r@.map_values(|e: TerminalEffect| effect_view(e)) == effects_of(
                old(self)@,
                events@,
                events@.len() as int,
            ),
    {
        let ghost start = self@;
        let mut effects: Vec<TerminalEffect> = Vec::new();
        let mut i: usize = 0;
        while i < events.len()
            invariant
                0 <= i <= events@.len(),
                self@ == surfaces_after_all(start, events@, i as int),
                effects@.map_values(|e: TerminalEffect| effect_view(e)) == effects_of(start, events@, i as int),
            decreases events@.len() - i,
        {
            let ghost before = effects@;
            let effect = self.apply(&events[i]);
            if let Some(e) = effect {
                effects.push(e);
                assert(effects@.map_values(|e: TerminalEffect| effect_view(e)) =~= before.map_values(
                    |e: TerminalEffect| effect_view(e),
                ).push(effect_view(e)));
            }
            i = i + 1;
        }
        effects
    }
}

/// A copy of a byte buffer.
fn copy_bytes(bytes: &Vec<u8>) -> (r: Vec<u8>)
    ensures
        r@ == bytes@,
{
    let mut r: Vec<u8> = Vec::new();
    let mut i: usize = 0;
    while i < bytes.len()
        invariant
            0 <= i <= bytes@.len(),
            r@ == bytes@.take(i as int),
        decreases bytes@.len() - i,
    {
        r.push(bytes[i]);
        assert(bytes@.take(i + 1) =~= bytes@.take(i as int).push(bytes@[i as int]));
        i = i + 1;
    }
    assert(bytes@.take(i as int) =~= bytes@);
    r
}

/// The first conversation that is not archived.
pub open spec fn first_unarchived(cs: Seq<ConversationItem>) -> Option<Seq<char>>
    decreases cs.len(),
{
    if cs.len() == 0 {
        None
    } else if !cs[0].archived {
        Some(cs[0].session_id@)
    } else {
        first_unarchived(cs.drop_first())
    }
}

/// The session to select on its own when the session list changes while
/// none is selected or requested: the first one that is not archived.
pub fn session_to_autoselect(
    conversations: &[ConversationItem],
    list_changed: bool,
    request_pending: bool,
    selected: bool,
) -> (r: Option<String>)
    ensures
        opt_view(r) == (if list_changed && !request_pending && !selected {
            first_unarchived(conversations@)
        } else {
            None
        }),
{
    if !list_changed || request_pending || selected {
        return None;
    }
    let mut i: usize = 0;
    assert(conversations@.skip(0) =~= conversations@);
    while i < conversations.len()
        invariant
            list_changed && !request_pending && !selected,
            0 <= i <= conversations@.len(),
            first_unarchived(conversations@) == first_unarchived(conversations@.skip(i as int)),
        decreases conversations@.len() - i,
    {
        assert(conversations@.skip(i as int)[0] == conversations@[i as int]);
        assert(conversations@.skip(i as int).drop_first() =~= conversations@.skip(i + 1));
        if !conversations[i].archived {
            return Some(conversations[i].session_id.clone());
        }
        i = i + 1;
    }
    None
}

/// A model choice: provider and model.
pub open spec fn pair_view(p: Option<(String, String)>) -> Option<(Seq<char>, Seq<char>)> {
    match p {
        Some((a, b)) => Some((a@, b@)),
        None => None,
    }
}

/// What the shell keeps about a session it asked the daemon for.
#[derive(Clone, Debug, PartialEq, Eq)]
pub struct SessionRequest {
    /// A session was requested and is not ready yet.
    pub pending: bool,
    /// The requested session, when a particular one was.
    pub target: Option<String>,
    /// A model to switch to once the session is ready.
    pub pending_model: Option<(String, String)>,
    /// A model switch sent and not yet seen in the client state.
    pub awaiting_switch: Option<(String, String)>,
}

/// What the shell does once an update is applied.
#[derive(Clone, Debug, PartialEq, Eq)]
pub struct ReadyEffects {
    /// The requested session became ready: open its terminal and list the
    /// personas.
    pub session_ready: bool,
    /// Switch to this model.
    pub switch_model: Option<(String, String)>,
    /// Send the prompt typed while the session was not ready.
    pub send_pending_prompt: bool,
}

/// The requested session is ready: a ready event arrived for it (or for
/// any session, when none in particular was requested).
pub open spec fn request_ready(r: SessionRequest, ready: Option<Seq<char>>) -> bool {
    match ready {
        Some(id) => r.pending && match r.target {
            Some(t) => t@ == id,
            None => true,
        },
        None => false,
    }
}

/// Mathematical form of a [`SessionRequest`].
pub struct RequestView {
    pub pending: bool,
    pub target: Option<Seq<char>>,
    pub pending_model: Option<(Seq<char>, Seq<char>)>,
    pub awaiting_switch: Option<(Seq<char>, Seq<char>)>,
}

impl View for SessionRequest {
    type V = RequestView;

    open spec fn view(&self) -> RequestView {
        RequestView {
            pending: self.pending,
            target: opt_view(self.target),
            pending_model: pair_view(self.pending_model),
            awaiting_switch: pair_view(self.awaiting_switch),
        }
    }
}

/// Mathematical form of [`ReadyEffects`].
pub struct EffectsView {
    pub session_ready: bool,
    pub switch_model: Option<(Seq<char>, Seq<char>)>,
    pub send_pending_prompt: bool,
}

impl View for ReadyEffects {
    type V = EffectsView;

    open spec fn view(&self) -> EffectsView {
        EffectsView {
            session_ready: self.session_ready,
            switch_model: pair_view(self.switch_model),
            send_pending_prompt: self.send_pending_prompt,
        }
    }
}

/// The request is for the ready session `ready` (see `request_ready`).
pub open spec fn is_ready_for(r: RequestView, ready: Option<Seq<char>>) -> bool {
    match ready {
        Some(id) => r.pending && match r.target {
            Some(t) => t == id,
            None => true,
        },
        None => false,
    }
}

/// The request and the effects after an update (see
/// `SessionRequest::after_update`).
pub open spec fn settled_request(
    r: RequestView,
    ready_session: Option<Seq<char>>,
    provider: Option<Seq<char>>,
    model: Option<Seq<char>>,
    selected: bool,
) -> (RequestView, EffectsView) {
    let ready = is_ready_for(r, ready_session);
    let awaiting = if ready && r.pending_model is Some {
        r.pending_model
    } else {
        r.awaiting_switch
    };
    let settled = match awaiting {
        Some((p, m)) => provider == Some(p) && model == Some(m),
        None => false,
    };
    (
        RequestView {
            pending: r.pending && !ready,
            target: if ready { None } else { r.target },
            pending_model: if ready { None } else { r.pending_model },
            awaiting_switch: if settled { None } else { awaiting },
        },
        EffectsView {
            session_ready: ready,
            switch_model: if ready { r.pending_model } else { None },
            send_pending_prompt: (settled || awaiting is None) && (ready || selected),
        },
    )
}

impl SessionRequest {
    /// Settles the request after an update: when the requested session is
    /// ready the request ends and a pending model choice is sent; a switch
    /// ends once the client state shows the model; the pending prompt goes
    /// out when no switch is awaited and a session is ready or selected.
    pub fn after_update(
        &mut self,
        ready_session: Option<&str>,
        current_provider: Option<&str>,
        current_model: Option<&str>,
        selected: bool,
    ) -> (r: ReadyEffects)
        ensures
            (final(self)@, r@) == settled_request(
                old(self)@,
                match ready_session {
                    Some(id) => Some(id@),
                    None => None,
                },
                match current_provider {
                    Some(p) => Some(p@),
                    None => None,
                },
                match current_model {
                    Some(m) => Some(m@),
                    None => None,
                },
                selected,
            ),
            ({
                let ready = request_ready(
                    *old(self),
                    match ready_session {
                        Some(id) => Some(id@),
                        None => None,
                    },
                );
                let awaiting = if ready && old(self).pending_model is Some {
                    pair_view(old(self).pending_model)
                } else {
                    pair_view(old(self).awaiting_switch)
                };
                let settled = match awaiting {
                    Some((p, m)) => match (current_provider, current_model) {
                        (Some(cp), Some(cm)) => cp@ == p && cm@ == m,
                        _ => false,
                    },
                    None => false,
                };
                &&& r.session_ready == ready
                &&& final(self).pending == (old(self).pending && !ready)
                &&& opt_view(final(self).target) == (if ready {
                    None
                } else {
                    opt_view(old(self).target)
                })
                &&& pair_view(final(self).pending_model) == (if ready {
                    None
                } else {
                    pair_view(old(self).pending_model)
                })
                &&& pair_view(r.switch_model) == (if ready {
                    pair_view(old(self).pending_model)
                } else {
                    None
                })
                &&& pair_view(final(self).awaiting_switch) == (if settled {
                    None
                } else {
                    awaiting
                })
                &&& r.send_pending_prompt == ((settled || awaiting is None) && (ready || selected))
            }),
    {
        let ready = match ready_session {
            Some(id) => self.pending && match &self.target {
                Some(t) => str_eq(t.as_str(), id),
                None => true,
            },
            None => false,
        };
        let mut switch_model: Option<(String, String)> = None;
        if ready {
            self.pending = false;
            self.target = None;
            match &self.pending_model {
                Some((provider, model)) => {
                    self.awaiting_switch = Some((provider.clone(), model.clone()));
                    switch_model = Some((provider.clone(), model.clone()));
                },
                None => {},
            }
            self.pending_model = None;
        }
        let settled = match &self.awaiting_switch {
            Some((provider, model)) => match (current_provider, current_model) {
                (Some(cp), Some(cm)) => str_eq(cp, provider.as_str()) && str_eq(cm, model.as_str()),
                _ => false,
            },
            None => false,
        };
        if settled {
            self.awaiting_switch = None;
        }
        let send = self.awaiting_switch.is_none() && (ready || selected);
        ReadyEffects { session_ready: ready, switch_model, send_pending_prompt: send }
    }
}

/// What the shell does once a batch of client events is applied: the plan of
/// the batch, a session it selected on its own (whose view is restored and
/// which is requested from the daemon), and the effects of the request
/// settling.
pub struct UpdateOutcome {
    pub plan: UpdatePlan,
    pub autoselected: Option<String>,
    pub effects: ReadyEffects,
}

/// The session selected on its own after an update: when the session list
/// changed while no session is requested or selected, the first one that is
/// not archived.
pub open spec fn autoselect_after(
    list_changed: bool,
    r: RequestView,
    selected: Option<Seq<char>>,
    cs: Seq<ConversationItem>,
) -> Option<Seq<char>> {
    if list_changed && !r.pending && selected is None {
        first_unarchived(cs)
    } else {
        None
    }
}

/// The request after a session was selected on its own: that session is
/// requested.
pub open spec fn request_autoselected(r: RequestView, auto: Option<Seq<char>>) -> RequestView {
    match auto {
        Some(id) => RequestView { pending: true, target: Some(id), ..r },
        None => r,
    }
}

/// The state steps of applying a batch of client events, in order: the
/// batch is planned and applied to the model; the session being attached
/// stays selected and a selected session without a tab gets one; when the
/// session list changed with nothing selected or requested, the first
/// unarchived session is selected and requested; then the request settles
/// against the ready session and the client's current model.
pub fn apply_update_steps(
    events: &[ClientEvent],
    model: &mut ShellModel,
    request: &mut SessionRequest,
    tabs: &mut Vec<OpenConversationTab>,
    active_tab: &mut Option<usize>,
    conversations: &[ConversationItem],
    current_provider: Option<&str>,
    current_model: Option<&str>,
) -> (out: UpdateOutcome)
    ensures
        plans(out.plan, events@),
        ({
            let applied = apply_all(old(model)@, events@);
            let sel = selection_after_update(applied.selected_session, old(request)@.target);
            let auto = autoselect_after(out.plan.session_list_changed, old(request)@, sel, conversations@);
            let selected = match auto {
                Some(id) => Some(id),
                None => sel,
            };
            &&& (tabs_view(final(tabs)@), *final(active_tab)) == tabs_after_update(
                tabs_view(old(tabs)@),
                *old(active_tab),
                sel,
                conversations@,
            )
            &&& opt_view(out.autoselected) == auto
            &&& final(model)@ == ShellModelView { selected_session: selected, ..applied }
            &&& (final(request)@, out.effects@) == settled_request(
                request_autoselected(old(request)@, auto),
                opt_view(out.plan.ready_session),
                match current_provider {
                    Some(p) => Some(p@),
                    None => None,
                },
                match current_model {
                    Some(m) => Some(m@),
                    None => None,
                },
                selected is Some,
            )
        }),
{
    let plan = plan_client_update(events);
    model.apply_events(events);
    let target: Option<&str> = match &request.target {
        Some(t) => Some(t.as_str()),
        None => None,
    };
    settle_selection_and_tabs(&mut model.ui.selected_session, target, tabs, active_tab, conversations);
    let autoselected = session_to_autoselect(
        conversations,
        plan.session_list_changed,
        request.pending,
        model.ui.selected_session.is_some(),
    );
    if let Some(id) = &autoselected {
        model.ui.selected_session = Some(id.clone());
        request.pending = true;
        request.target = Some(id.clone());
    }
    let ready: Option<&str> = match &plan.ready_session {
        Some(id) => Some(id.as_str()),
        None => None,
    };
    let effects = request.after_update(ready, current_provider, current_model, model.ui.selected_session.is_some());
    UpdateOutcome { plan, autoselected, effects }
}

/// An event of the native browser view.
#[derive(Clone, Debug, PartialEq, Eq)]
pub enum PortalEvent {
    /// The page's address changed.
    AddressChanged { owner: Option<String>, url: String },
    /// The page's title changed.
    TitleChanged { owner: Option<String>, title: String },
    /// Anything else.
    Other,
}

/// The owner name of the shell's browser view.
pub open spec fn browser_owner() -> Seq<char> {
    "native-browser"@
}

/// The event is for the shell's browser view: it names no owner or this one.
pub open spec fn for_shell(owner: Option<String>) -> bool {
    match owner {
        Some(o) => o@ == browser_owner(),
        None => true,
    }
}

/// The surfaces after one browser view event: the shell's view shows the
/// new address (clearing the error) or title.
pub open spec fn after_portal_event(s: SurfacesView, e: PortalEvent) -> SurfacesView {
    match e {
        PortalEvent::AddressChanged { owner, url } => if for_shell(owner) {
            SurfacesView { browser_url: url@, browser_error: None, ..s }
        } else {
            s
        },
        PortalEvent::TitleChanged { owner, title } => if for_shell(owner) {
            SurfacesView { browser_title: title@, ..s }
        } else {
            s
        },
        PortalEvent::Other => s,
    }
}

/// The event changes what the panel shows.
pub open spec fn portal_event_counts(e: PortalEvent) -> bool {
    match e {
        PortalEvent::AddressChanged { owner, .. } => for_shell(owner),
        PortalEvent::TitleChanged { owner, .. } => for_shell(owner),
        PortalEvent::Other => false,
    }
}

/// The surfaces after the first `n` browser view events.
pub open spec fn after_portal_events(s: SurfacesView, es: Seq<PortalEvent>, n: int) -> SurfacesView
    decreases n,
{
    if n <= 0 {
        s
    } else {
        after_portal_event(after_portal_events(s, es, n - 1), es[n - 1])
    }
}

/// The page the panel opens: its address, or `about:blank` when it has none.
pub open spec fn initial_page(s: SurfacesView) -> Seq<char> {
    if s.browser_url.len() == 0 {
        "about:blank"@
    } else {
        s.browser_url
    }
}

/// Whether an optional owner names the shell's browser view (or none).
fn owner_is_shell(owner: &Option<String>) -> (b: bool)
    ensures
        b == for_shell(*owner),
{
    match owner {
        Some(o) => str_eq(o.as_str(), "native-browser"),
        None => true,
    }
}

impl ShellSurfaces {
    /// Opens the browser panel: no error, and a page (the one the session
    /// last showed, else `about:blank`) when the address is empty.
    pub fn open_browser(&mut self, session_url: Option<&str>)
        ensures
            final(self)@ == (SurfacesView {
                browser_open: true,
                browser_error: None,
                browser_url: if old(self)@.browser_url.len() == 0 {
                    match session_url {
                        Some(u) => u@,
                        None => "about:blank"@,
                    }
                } else {
                    old(self)@.browser_url
                },
                ..old(self)@
            }),
    {
        self.browser_open = true;
        self.browser_error = None;
        if crate::text::str_len(self.browser_url.as_str()) == 0 {
            self.browser_url = match session_url {
                Some(u) => u.to_owned(),
                None => "about:blank".to_owned(),
            };
        } else {
            proof {
                crate::text::lemma_len_le_utf8_len(self.browser_url@);
                if self.browser_url@.len() == 0 {
                    assert(crate::text::utf8_len(self.browser_url@) == 0);
                }
            }
        }
    }

    /// The page a newly created browser view loads (see `initial_page`).
    pub fn initial_page(&self) -> (r: String)
        ensures
            r@ == initial_page(self@),
    {
        proof {
            crate::text::lemma_len_le_utf8_len(self.browser_url@);
            if self.browser_url@.len() == 0 {
                assert(crate::text::utf8_len(self.browser_url@) == 0);
            }
        }
        if crate::text::str_len(self.browser_url.as_str()) == 0 {
            "about:blank".to_owned()
        } else {
            self.browser_url.clone()
        }
    }

    /// Goes to the typed address: the normalized URL, which the panel then
    /// shows and which is returned to load; an address that is not an
    /// allowed URL sets the error instead.
    pub fn navigate(&mut self) -> (r: Option<String>)
        ensures
            match crate::browser::normalized_url(old(self)@.browser_url) {
                Some(u) => r matches Some(x) && x@ == u && final(self)@ == (SurfacesView {
                    browser_url: u,
                    browser_error: None,
                    ..old(self)@
                }),
                None => r is None && final(self)@ == (SurfacesView {
                    browser_error: Some("enter a valid http(s) URL"@),
                    ..old(self)@
                }),
            },
    {
        match crate::browser::normalize_browser_url(self.browser_url.as_str()) {
            Some(url) => {
                self.browser_url = url.clone();
                self.browser_error = None;
                Some(url)
            },
            None => {
                self.browser_error = Some("enter a valid http(s) URL".to_owned());
                None
            },
        }
    }

    /// Applies the browser view's events in order; returns whether any
    /// changed what the panel shows.
    pub fn apply_portal_events(&mut self, events: &Vec<PortalEvent>) -> (changed: bool)
        ensures
            final(self)@ == after_portal_events(old(self)@, events@, events@.len() as int),
            changed == exists|i: int| 0 <= i < events@.len() && portal_event_counts(#[trigger] events@[i]),
    {
        let ghost start = self@;
        let mut changed = false;
        let mut i: usize = 0;
        while i < events.len()
            invariant
                0 <= i <= events@.len(),
                self@ == after_portal_events(start, events@, i as int),
                changed == exists|j: int| 0 <= j < i && portal_event_counts(#[trigger] events@[j]),
            decreases events@.len() - i,
        {
            match &events[i] {
                PortalEvent::AddressChanged { owner, url } => {
                    if owner_is_shell(owner) {
                        self.browser_url = url.clone();
                        self.browser_error = None;
                        changed = true;
                    }
                },
                PortalEvent::TitleChanged { owner, title } => {
                    if owner_is_shell(owner) {
                        self.browser_title = title.clone();
                        changed = true;
                    }
                },
                PortalEvent::Other => {},
            }
            i = i + 1;
        }
        changed
    }

    /// A tab bound to no session shows no browser page.
    pub fn reset_browser(&mut self)
        ensures
            final(self)@ == (SurfacesView {
                browser_open: false,
                browser_url: Seq::<char>::empty(),
                browser_title: Seq::<char>::empty(),
                browser_error: None,
                ..old(self)@
            }),
    {
        self.browser_open = false;
        self.browser_url = String::new();
        self.browser_title = String::new();
        self.browser_error = None;
    }
}

} // verus!
