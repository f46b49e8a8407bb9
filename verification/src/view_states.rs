//! The view each session had when it was last shown: panels, auxiliary
//! view, workbench width, expanded transcript parts and browser page. A
//! session shown for the first time takes the current view.
use vstd::prelude::*;
use crate::labels::{aux_from_key, aux_key, AuxiliaryView};
use crate::layout::ShellLayoutState;
use crate::order::string_views;
use crate::text::str_eq;

verus! {

/// The view of one session.
#[derive(Clone, Debug, PartialEq, Eq)]
pub struct SessionViewState {
    pub layout: ShellLayoutState,
    pub auxiliary_view: AuxiliaryView,
    /// The workbench width: the bits of its `f32` value, carried unchanged.
    pub workbench_width_bits: u32,
    pub expanded_chat_parts: Vec<String>,
    pub browser_panel_open: bool,
    pub browser_url: String,
    pub browser_title: String,
}

/// Mathematical form of a [`SessionViewState`].
pub struct ViewStateView {
    pub layout: ShellLayoutState,
    pub auxiliary_view: AuxiliaryView,
    pub workbench_width_bits: u32,
    pub expanded_chat_parts: Seq<Seq<char>>,
    pub browser_panel_open: bool,
    pub browser_url: Seq<char>,
    pub browser_title: Seq<char>,
}

impl View for SessionViewState {
    type V = ViewStateView;

    open spec fn view(&self) -> ViewStateView {
        ViewStateView {
            layout: self.layout,
            auxiliary_view: self.auxiliary_view,
            workbench_width_bits: self.workbench_width_bits,
            expanded_chat_parts: string_views(self.expanded_chat_parts@),
            browser_panel_open: self.browser_panel_open,
            browser_url: self.browser_url@,
            browser_title: self.browser_title@,
        }
    }
}

/// A copy of a list of strings.
fn copy_strings(v: &Vec<String>) -> (r: Vec<String>)
    ensures
        string_views(r@) == string_views(v@),
{
    let mut r: Vec<String> = Vec::new();
    let mut i: usize = 0;
    while i < v.len()
        invariant
            0 <= i <= v@.len(),
            string_views(r@) == string_views(v@).take(i as int),
        decreases v@.len() - i,
    {
        let ghost before = r@;
        r.push(v[i].clone());
        assert(string_views(r@) =~= string_views(before).push(v@[i as int]@));
        assert(string_views(v@).take(i + 1) =~= string_views(v@).take(i as int).push(v@[i as int]@));
        i = i + 1;
    }
    assert(string_views(v@).take(i as int) =~= string_views(v@));
    r
}

impl SessionViewState {
    /// A copy of the view.
    pub fn duplicate(&self) -> (r: SessionViewState)
        ensures
            r@ == self@,
    {
        SessionViewState {
            layout: self.layout,
            auxiliary_view: self.auxiliary_view,
            workbench_width_bits: self.workbench_width_bits,
            expanded_chat_parts: copy_strings(&self.expanded_chat_parts),
            browser_panel_open: self.browser_panel_open,
            browser_url: self.browser_url.clone(),
            browser_title: self.browser_title.clone(),
        }
    }
}

/// A session's view as the shared state stores it: panels as flags, the
/// auxiliary view by its key.
#[derive(Clone, Debug, PartialEq, Eq)]
pub struct PersistedSessionView {
    pub sidebar_collapsed: bool,
    pub workbench_collapsed: bool,
    pub terminal_collapsed: bool,
    pub changes_expanded: bool,
    pub local_expanded: bool,
    pub activity_expanded: bool,
    pub auxiliary_view: String,
    /// The workbench width: the bits of its `f32` value.
    pub workbench_width_bits: u32,
    pub expanded_chat_parts: Vec<String>,
    pub browser_panel_open: bool,
    pub browser_url: String,
    pub browser_title: String,
}

impl SessionViewState {
    /// The view a stored one describes; an unknown auxiliary view key shows
    /// the changes. (The width, which is clamped to the workbench's limits
    /// in floating point, is taken as given.)
    pub fn from_persisted(state: &PersistedSessionView) -> (r: SessionViewState)
        ensures
            restores(*state, r@),
    {
        SessionViewState {
            layout: ShellLayoutState {
                sidebar_collapsed: state.sidebar_collapsed,
                workbench_collapsed: state.workbench_collapsed,
                terminal_collapsed: state.terminal_collapsed,
                changes_expanded: state.changes_expanded,
                local_expanded: state.local_expanded,
                activity_expanded: state.activity_expanded,
            },
            auxiliary_view: AuxiliaryView::from_key(state.auxiliary_view.as_str()),
            workbench_width_bits: state.workbench_width_bits,
            expanded_chat_parts: copy_strings(&state.expanded_chat_parts),
            browser_panel_open: state.browser_panel_open,
            browser_url: state.browser_url.clone(),
            browser_title: state.browser_title.clone(),
        }
    }

    /// The view as the shared state stores it.
    pub fn to_persisted(&self) -> (r: PersistedSessionView)
        ensures
            stores(self@, r),
    {
        PersistedSessionView {
            sidebar_collapsed: self.layout.sidebar_collapsed,
            workbench_collapsed: self.layout.workbench_collapsed,
            terminal_collapsed: self.layout.terminal_collapsed,
            changes_expanded: self.layout.changes_expanded,
            local_expanded: self.layout.local_expanded,
            activity_expanded: self.layout.activity_expanded,
            auxiliary_view: self.auxiliary_view.key().to_owned(),
            workbench_width_bits: self.workbench_width_bits,
            expanded_chat_parts: copy_strings(&self.expanded_chat_parts),
            browser_panel_open: self.browser_panel_open,
            browser_url: self.browser_url.clone(),
            browser_title: self.browser_title.clone(),
        }
    }
}

/// `p` stores the view `v`.
pub open spec fn stores(v: ViewStateView, p: PersistedSessionView) -> bool {
    &&& p.sidebar_collapsed == v.layout.sidebar_collapsed
    &&& p.workbench_collapsed == v.layout.workbench_collapsed
    &&& p.terminal_collapsed == v.layout.terminal_collapsed
    &&& p.changes_expanded == v.layout.changes_expanded
    &&& p.local_expanded == v.layout.local_expanded
    &&& p.activity_expanded == v.layout.activity_expanded
    &&& p.auxiliary_view@ == aux_key(v.auxiliary_view)
    &&& p.workbench_width_bits == v.workbench_width_bits
    &&& string_views(p.expanded_chat_parts@) == v.expanded_chat_parts
    &&& p.browser_panel_open == v.browser_panel_open
    &&& p.browser_url@ == v.browser_url
    &&& p.browser_title@ == v.browser_title
}

/// `v` is the view that `p` stores; an unknown auxiliary view key shows the
/// changes.
pub open spec fn restores(p: PersistedSessionView, v: ViewStateView) -> bool {
    &&& v.layout == (ShellLayoutState {
        sidebar_collapsed: p.sidebar_collapsed,
        workbench_collapsed: p.workbench_collapsed,
        terminal_collapsed: p.terminal_collapsed,
        changes_expanded: p.changes_expanded,
        local_expanded: p.local_expanded,
        activity_expanded: p.activity_expanded,
    })
    &&& v.auxiliary_view == aux_from_key(p.auxiliary_view@)
    &&& v.workbench_width_bits == p.workbench_width_bits
    &&& v.expanded_chat_parts == string_views(p.expanded_chat_parts@)
    &&& v.browser_panel_open == p.browser_panel_open
    &&& v.browser_url == p.browser_url@
    &&& v.browser_title == p.browser_title@
}

/// Storing a session's view and reading it back gives the same view.
pub proof fn lemma_persisted_round_trip(v: ViewStateView, p: PersistedSessionView, back: ViewStateView)
    requires
        stores(v, p),
        restores(p, back),
    ensures
        back == v,
{
    crate::labels::lemma_aux_key_round_trip(v.auxiliary_view);
}

/// The views stored per session, as a map.
pub open spec fn views_map(entries: Seq<(String, SessionViewState)>) -> Map<Seq<char>, ViewStateView>
    decreases entries.len(),
{
    if entries.len() == 0 {
        Map::empty()
    } else {
        views_map(entries.drop_last()).insert(entries.last().0@, entries.last().1@)
    }
}

/// No session stored twice.
pub open spec fn distinct_sessions(entries: Seq<(String, SessionViewState)>) -> bool {
    forall|i: int, j: int| 0 <= i < j < entries.len() ==> #[trigger] entries[i].0@ != #[trigger] entries[j].0@
}

/// What the map holds for a stored session, and which sessions it holds.
proof fn lemma_views_map_lookup(entries: Seq<(String, SessionViewState)>)
    requires
        distinct_sessions(entries),
    ensures
        forall|i: int| 0 <= i < entries.len() ==> #[trigger] views_map(entries).contains_key(entries[i].0@)
            && views_map(entries)[entries[i].0@] == entries[i].1@,
        forall|key: Seq<char>| #[trigger] views_map(entries).contains_key(key) ==> exists|i: int|
            0 <= i < entries.len() && entries[i].0@ == key,
    decreases entries.len(),
{
    if entries.len() > 0 {
        let rest = entries.drop_last();
        assert(distinct_sessions(rest)) by {
            assert forall|i: int, j: int| 0 <= i < j < rest.len() implies #[trigger] rest[i].0@ != #[trigger] rest[j].0@ by {
                assert(entries[i].0@ != entries[j].0@);
            }
        }
        lemma_views_map_lookup(rest);
        let n = entries.len() - 1;
        assert forall|i: int| 0 <= i < entries.len() implies #[trigger] views_map(entries).contains_key(entries[i].0@)
            && views_map(entries)[entries[i].0@] == entries[i].1@ by {
            if i < n {
                assert(rest[i] == entries[i]);
                assert(views_map(rest).contains_key(rest[i].0@));
                assert(entries[i].0@ != entries[n].0@);
            }
        }
        assert forall|key: Seq<char>| #[trigger] views_map(entries).contains_key(key) implies exists|i: int|
            0 <= i < entries.len() && entries[i].0@ == key by {
            if key != entries[n].0@ {
                assert(views_map(rest).contains_key(key));
                let i = choose|i: int| 0 <= i < rest.len() && rest[i].0@ == key;
                assert(entries[i].0@ == key);
            } else {
                assert(entries[n].0@ == key);
            }
        }
    }
}

/// Replacing the view of a stored session.
proof fn lemma_views_map_update(entries: Seq<(String, SessionViewState)>, k: int, e: (String, SessionViewState))
    requires
        distinct_sessions(entries),
        0 <= k < entries.len(),
        e.0@ == entries[k].0@,
    ensures
        views_map(entries.update(k, e)) == views_map(entries).insert(e.0@, e.1@),
        distinct_sessions(entries.update(k, e)),
    decreases entries.len(),
{
    let t = entries.update(k, e);
    let n = entries.len() - 1;
    let rest = entries.drop_last();
    assert(distinct_sessions(rest)) by {
        assert forall|i: int, j: int| 0 <= i < j < rest.len() implies #[trigger] rest[i].0@ != #[trigger] rest[j].0@ by {
            assert(entries[i].0@ != entries[j].0@);
        }
    }
    if k == n {
        assert(t.drop_last() =~= rest);
        assert(views_map(t) =~= views_map(entries).insert(e.0@, e.1@));
    } else {
        assert(t.drop_last() =~= rest.update(k, e));
        lemma_views_map_update(rest, k, e);
        assert(entries[k].0@ != entries[n].0@);
        assert(views_map(t) =~= views_map(entries).insert(e.0@, e.1@));
    }
    assert forall|i: int, j: int| 0 <= i < j < t.len() implies #[trigger] t[i].0@ != #[trigger] t[j].0@ by {
        assert(entries[i].0@ != entries[j].0@);
    }
}

/// The view of every session that was shown.
pub struct SessionViewStates {
    pub entries: Vec<(String, SessionViewState)>,
}

impl SessionViewStates {
    /// One view per session.
    pub open spec fn wf(&self) -> bool {
        distinct_sessions(self.entries@)
    }

    /// The views by session.
    pub open spec fn map(&self) -> Map<Seq<char>, ViewStateView> {
        views_map(self.entries@)
    }

    /// No view stored.
    pub fn new() -> (r: SessionViewStates)
        ensures
            r.wf(),
            r.map() == Map::<Seq<char>, ViewStateView>::empty(),
    {
        SessionViewStates { entries: Vec::new() }
    }

    /// Where the view of `session_id` is stored, if it is.
    fn index_of(&self, session_id: &str) -> (r: Option<usize>)
        requires
            self.wf(),
        ensures
            match r {
                Some(k) => k < self.entries@.len() && self.entries@[k as int].0@ == session_id@,
                None => !self.map().contains_key(session_id@),
            },
    {
        let mut i: usize = 0;
        while i < self.entries.len()
            invariant
                self.wf(),
                0 <= i <= self.entries@.len(),
                forall|j: int| 0 <= j < i ==> #[trigger] self.entries@[j].0@ != session_id@,
            decreases self.entries@.len() - i,
        {
            if str_eq(self.entries[i].0.as_str(), session_id) {
                return Some(i);
            }
            i = i + 1;
        }
        proof {
            lemma_views_map_lookup(self.entries@);
        }
        None
    }

    /// The stored view of `session_id`, if any.
    pub fn get(&self, session_id: &str) -> (r: Option<&SessionViewState>)
        requires
            self.wf(),
        ensures
            match r {
                Some(v) => self.map().contains_key(session_id@) && v@ == self.map()[session_id@],
                None => !self.map().contains_key(session_id@),
            },
    {
        match self.index_of(session_id) {
            Some(k) => {
                proof {
                    lemma_views_map_lookup(self.entries@);
                    assert(views_map(self.entries@).contains_key(self.entries@[k as int].0@));
                }
                Some(&self.entries[k].1)
            },
            None => None,
        }
    }

    /// Stores the view of `session_id`, replacing any stored one.
    pub fn insert(&mut self, session_id: &str, state: SessionViewState)
        requires
            old(self).wf(),
        ensures
            final(self).wf(),
            final(self).map() == old(self).map().insert(session_id@, state@),
    {
        let entry = (session_id.to_owned(), state);
        match self.index_of(session_id) {
            Some(k) => {
                proof {
                    lemma_views_map_update(self.entries@, k as int, entry);
                }
                self.entries.set(k, entry);
            },
            None => {
                proof {
                    lemma_views_map_lookup(self.entries@);
                    assert forall|i: int, j: int| 0 <= i < j < self.entries@.push(entry).len() implies #[trigger] self.entries@.push(
                        entry,
                    )[i].0@ != #[trigger] self.entries@.push(entry)[j].0@ by {
                        if j == self.entries@.len() {
                            assert(self.map().contains_key(self.entries@[i].0@));
                        } else {
                            assert(self.entries@[i].0@ != self.entries@[j].0@);
                        }
                    }
                    assert(self.entries@.push(entry).drop_last() =~= self.entries@);
                }
                self.entries.push(entry);
            },
        }
    }

    /// The stored view of `session_id`; a session without one gets
    /// `current`, which is stored for it.
    pub fn get_or_insert(&mut self, session_id: &str, current: SessionViewState) -> (r: SessionViewState)
        requires
            old(self).wf(),
        ensures
            final(self).wf(),
            (final(self).map(), r@) == shown_view(old(self).map(), session_id@, current@),
    {
        match self.index_of(session_id) {
            Some(k) => {
                proof {
                    lemma_views_map_lookup(self.entries@);
                }
                self.entries[k].1.duplicate()
            },
            None => {
                let copy = current.duplicate();
                self.insert(session_id, current);
                copy
            },
        }
    }

    /// Stores `current` for `session_id` unless a view is stored for it.
    pub fn ensure(&mut self, session_id: &str, current: SessionViewState)
        requires
            old(self).wf(),
        ensures
            final(self).wf(),
            final(self).map() == shown_view(old(self).map(), session_id@, current@).0,
    {
        let _ = self.get_or_insert(session_id, current);
    }
}

/// Showing a session: the views afterwards and the view it gets. A session
/// shown for the first time takes the current view, which is stored for it.
pub open spec fn shown_view(views: Map<Seq<char>, ViewStateView>, session: Seq<char>, current: ViewStateView) -> (
    Map<Seq<char>, ViewStateView>,
    ViewStateView,
) {
    if views.contains_key(session) {
        (views, views[session])
    } else {
        (views.insert(session, current), current)
    }
}

/// Capturing a session's view and showing the session again gives back the
/// captured view, whatever the view is at that moment.
pub proof fn lemma_capture_then_show(
    views: Map<Seq<char>, ViewStateView>,
    session: Seq<char>,
    captured: ViewStateView,
    current: ViewStateView,
)
    ensures
        shown_view(views.insert(session, captured), session, current) == (views.insert(session, captured), captured),
{
}

/// The first time a session is shown it takes the current view.
pub proof fn lemma_first_show_inherits(views: Map<Seq<char>, ViewStateView>, session: Seq<char>, current: ViewStateView)
    requires
        !views.contains_key(session),
    ensures
        shown_view(views, session, current).1 == current,
        shown_view(views, session, current).0[session] == current,
{
}

} // verus!
