//! Conversations as the sidebar and the tab strip know them, and the tab
//! strip's rules: which tab a session opens in, what closing a tab
//! selects, and when a session-ready event is tracked.
use vstd::prelude::*;
use crate::text::{clone_opt, opt_view, str_eq};

verus! {

/// A conversation listed by the daemon.
#[derive(Clone, Debug, PartialEq, Eq)]
pub struct ConversationItem {
    pub session_id: String,
    pub title: String,
    pub cwd: Option<String>,
    pub last_message_at: Option<i64>,
    pub last_turn_failed: bool,
    pub needs_attention: bool,
    pub archived: bool,
    pub pinned: bool,
    pub group_id: Option<String>,
}

/// The first conversation with the given session id.
pub open spec fn find_conversation(cs: Seq<ConversationItem>, id: Seq<char>) -> Option<ConversationItem>
    decreases cs.len(),
{
    if cs.len() == 0 {
        None
    } else if cs[0].session_id@ == id {
        Some(cs[0])
    } else {
        find_conversation(cs.drop_first(), id)
    }
}

/// The first conversation with the given session id.
pub fn find_conversation_exec<'a>(cs: &'a [ConversationItem], id: &str) -> (r: Option<&'a ConversationItem>)
    ensures
        match r {
            Some(c) => find_conversation(cs@, id@) == Some(*c),
            None => find_conversation(cs@, id@) is None,
        },
{
    let mut i: usize = 0;
    assert(cs@.skip(0) =~= cs@);
    while i < cs.len()
        invariant
            0 <= i <= cs@.len(),
            find_conversation(cs@, id@) == find_conversation(cs@.skip(i as int), id@),
        decreases cs.len() - i,
    {
        assert(cs@.skip(i as int).drop_first() =~= cs@.skip(i + 1));
        assert(cs@.skip(i as int)[0] == cs@[i as int]);
        if str_eq(cs[i].session_id.as_str(), id) {
            return Some(&cs[i]);
        }
        i = i + 1;
    }
    None
}

/// The title shown for a session: its conversation's title, or
/// `New conversation` before the session is listed.
pub fn conversation_title(conversations: &[ConversationItem], session_id: &str) -> (r: String)
    ensures
        r@ == (match find_conversation(conversations@, session_id@) {
            Some(c) => c.title@,
            None => "New conversation"@,
        }),
{
    match find_conversation_exec(conversations, session_id) {
        Some(c) => c.title.clone(),
        None => "New conversation".to_owned(),
    }
}

/// An open tab of the tab strip: a session, or a placeholder for a new
/// conversation.
#[derive(Clone, Debug, PartialEq, Eq)]
pub struct OpenConversationTab {
    pub session_id: Option<String>,
    pub title: String,
}

/// Mathematical form of an [`OpenConversationTab`].
pub struct TabView {
    pub session_id: Option<Seq<char>>,
    pub title: Seq<char>,
}

impl View for OpenConversationTab {
    type V = TabView;

    open spec fn view(&self) -> TabView {
        TabView { session_id: opt_view(self.session_id), title: self.title@ }
    }
}

impl OpenConversationTab {
    /// A copy of the tab.
    pub fn duplicate(&self) -> (r: OpenConversationTab)
        ensures
            r@ == self@,
    {
        OpenConversationTab { session_id: clone_opt(&self.session_id), title: self.title.clone() }
    }
}

/// The tabs, viewed.
pub open spec fn tabs_view(tabs: Seq<OpenConversationTab>) -> Seq<TabView> {
    tabs.map_values(|t: OpenConversationTab| t@)
}

/// A tab's title once the session's metadata is known.
pub open spec fn refreshed_title(tab: TabView, cs: Seq<ConversationItem>) -> Seq<char> {
    match tab.session_id {
        Some(id) => match find_conversation(cs, id) {
            Some(c) => c.title@,
            None => tab.title,
        },
        None => tab.title,
    }
}

/// Takes a session tab's title from its conversation, once it is listed.
pub fn refresh_tab_title(tab: &mut OpenConversationTab, conversations: &[ConversationItem])
    ensures
        final(tab)@ == (TabView {
            session_id: old(tab)@.session_id,
            title: refreshed_title(old(tab)@, conversations@),
        }),
{
    let found = match &tab.session_id {
        Some(id) => find_conversation_exec(conversations, id.as_str()),
        None => None,
    };
    if let Some(c) = found {
        tab.title = c.title.clone();
    }
}

/// The tabs that are bound to a session, in order.
pub open spec fn bound_tabs(tabs: Seq<TabView>) -> Seq<TabView>
    decreases tabs.len(),
{
    if tabs.len() == 0 {
        Seq::empty()
    } else if tabs.last().session_id is Some {
        bound_tabs(tabs.drop_last()).push(tabs.last())
    } else {
        bound_tabs(tabs.drop_last())
    }
}

/// Drops every placeholder tab.
pub fn remove_unbound_tabs(tabs: &mut Vec<OpenConversationTab>)
    ensures
        tabs_view(final(tabs)@) == bound_tabs(tabs_view(old(tabs)@)),
{
    let ghost all = tabs_view(tabs@);
    let mut old_tabs: Vec<OpenConversationTab> = Vec::new();
    std::mem::swap(tabs, &mut old_tabs);
    assert(tabs_view(tabs@) =~= bound_tabs(all.take(0)));
    let mut k: usize = 0;
    while k < old_tabs.len()
        invariant
            0 <= k <= old_tabs.len(),
            all == tabs_view(old_tabs@),
            tabs_view(tabs@) == bound_tabs(all.take(k as int)),
        decreases old_tabs.len() - k,
    {
        proof {
            assert(all.take(k + 1).drop_last() =~= all.take(k as int));
            assert(all.take(k + 1).last() == old_tabs@[k as int]@);
        }
        if old_tabs[k].session_id.is_some() {
            let ghost before = tabs@;
            tabs.push(old_tabs[k].duplicate());
            assert(tabs_view(tabs@) =~= tabs_view(before).push(old_tabs@[k as int]@));
        }
        k = k + 1;
    }
    assert(all.take(k as int) =~= all);
}

/// The tab selected after closing `removed_index`, with `remaining_len`
/// tabs left: the same tab as before (shifted left when it came after the
/// closed one), the closed position when none was active, clamped to the
/// last tab; none when no tab is left.
pub open spec fn tab_after_close(active: Option<usize>, removed: int, remaining: int) -> Option<int> {
    if remaining == 0 {
        None
    } else {
        let current = match active {
            Some(a) => a as int,
            None => removed,
        };
        let adjusted = if current > removed { current - 1 } else { current };
        Some(if adjusted < remaining - 1 { adjusted } else { remaining - 1 })
    }
}

pub fn active_tab_after_close(active_tab: Option<usize>, removed_index: usize, remaining_len: usize) -> (r: Option<usize>)
    ensures
        match r {
            Some(i) => tab_after_close(active_tab, removed_index as int, remaining_len as int) == Some(i as int),
            None => tab_after_close(active_tab, removed_index as int, remaining_len as int) is None,
        },
{
    if remaining_len == 0 {
        return None;
    }
    let last_index = remaining_len - 1;
    let current = match active_tab {
        Some(a) => a,
        None => removed_index,
    };
    let adjusted = if current > removed_index { current - 1 } else { current };
    Some(if adjusted < last_index { adjusted } else { last_index })
}

/// Index of the first tab bound to session `id`.
pub open spec fn tab_index_of(tabs: Seq<TabView>, id: Seq<char>) -> Option<int>
    decreases tabs.len(),
{
    if tabs.len() == 0 {
        None
    } else if tabs[0].session_id == Some(id) {
        Some(0)
    } else {
        match tab_index_of(tabs.drop_first(), id) {
            Some(i) => Some(i + 1),
            None => None,
        }
    }
}

pub proof fn lemma_tab_index_of(tabs: Seq<TabView>, id: Seq<char>)
    ensures
        match tab_index_of(tabs, id) {
            Some(i) => 0 <= i < tabs.len() && tabs[i].session_id == Some(id) && forall|j: int|
                0 <= j < i ==> tabs[j].session_id != Some(id),
            None => forall|j: int| 0 <= j < tabs.len() ==> tabs[j].session_id != Some(id),
        },
    decreases tabs.len(),
{
    if tabs.len() > 0 {
        lemma_tab_index_of(tabs.drop_first(), id);
        if tabs[0].session_id != Some(id) {
            assert forall|j: int| 0 < j < tabs.len() implies tabs[j].session_id == tabs.drop_first()[j
                - 1].session_id by {}
        }
    }
}

/// The active tab once the selected session is known: the first tab bound
/// to the selected session, else the active tab as it was.
pub fn active_tab_for_selection(
    tabs: &Vec<OpenConversationTab>,
    active: Option<usize>,
    selected: Option<&str>,
) -> (r: Option<usize>)
    ensures
        match selected {
            Some(id) => match tab_index_of(tabs_view(tabs@), id@) {
                Some(i) => r == Some(i as usize),
                None => r == active,
            },
            None => r == active,
        },
{
    let id = match selected {
        Some(id) => id,
        None => return active,
    };
    let ghost tv = tabs_view(tabs@);
    proof {
        lemma_tab_index_of(tv, id@);
    }
    let mut i: usize = 0;
    while i < tabs.len()
        invariant
            selected == Some(id),
            tv == tabs_view(tabs@),
            0 <= i <= tabs@.len(),
            forall|j: int| 0 <= j < i ==> tv[j].session_id != Some(id@),
            match tab_index_of(tv, id@) {
                Some(k) => 0 <= k < tv.len() && tv[k].session_id == Some(id@) && forall|j: int|
                    0 <= j < k ==> tv[j].session_id != Some(id@),
                None => forall|j: int| 0 <= j < tv.len() ==> tv[j].session_id != Some(id@),
            },
        decreases tabs@.len() - i,
    {
        let bound = match &tabs[i].session_id {
            Some(s) => str_eq(s.as_str(), id),
            None => false,
        };
        assert(tv[i as int] == tabs@[i as int].view());
        if bound {
            proof {
                assert(tv[i as int].session_id == Some(id@));
                if let Some(k) = tab_index_of(tv, id@) {
                    assert(k == i);
                }
            }
            return Some(i);
        }
        i = i + 1;
    }
    active
}

/// Opening a tab: the tabs afterwards and the index of the tab shown.
///
/// A placeholder tab reuses the active tab, if any. A session that already
/// has a tab drops every placeholder and shows its tab, retitled. Otherwise
/// the session takes over the active tab when that is a placeholder, or
/// opens a new tab at the end.
pub open spec fn open_tab(tabs: Seq<TabView>, active: Option<usize>, tab: TabView) -> (Seq<TabView>, int) {
    match tab.session_id {
        None => match active {
            Some(i) => (tabs, i as int),
            None => (tabs.push(tab), tabs.len() as int),
        },
        Some(id) => if tab_index_of(tabs, id) is Some {
            let kept = bound_tabs(tabs);
            match tab_index_of(kept, id) {
                Some(i) => (kept.update(i, TabView { title: tab.title, ..kept[i] }), i),
                None => (kept.push(tab), kept.len() as int),
            }
        } else {
            match active {
                Some(i) => if (i as int) < tabs.len() && tabs[i as int].session_id is None {
                    (tabs.update(i as int, tab), i as int)
                } else {
                    (tabs.push(tab), tabs.len() as int)
                },
                None => (tabs.push(tab), tabs.len() as int),
            }
        },
    }
}

/// Index of the first tab bound to session `id`.
fn tab_position(tabs: &Vec<OpenConversationTab>, id: &str) -> (r: Option<usize>)
    ensures
        match r {
            Some(i) => tab_index_of(tabs_view(tabs@), id@) == Some(i as int),
            None => tab_index_of(tabs_view(tabs@), id@) is None,
        },
{
    let ghost tv = tabs_view(tabs@);
    let mut i: usize = 0;
    assert(tv.skip(0) =~= tv);
    while i < tabs.len()
        invariant
            0 <= i <= tabs@.len(),
            tv == tabs_view(tabs@),
            forall|j: int| 0 <= j < i ==> tv[j].session_id != Some(id@),
        decreases tabs.len() - i,
    {
        let same = match &tabs[i].session_id {
            Some(s) => str_eq(s.as_str(), id),
            None => false,
        };
        if same {
            proof {
                lemma_tab_index_of(tv, id@);
                assert(tv[i as int].session_id == Some(id@));
            }
            return Some(i);
        }
        i = i + 1;
    }
    proof {
        lemma_tab_index_of(tv, id@);
    }
    None
}

/// Opens `tab` in the tab strip and returns the index of the tab to show
/// (see `open_tab`).
pub fn open_tab_for_session(
    tabs: &mut Vec<OpenConversationTab>,
    active_tab: Option<usize>,
    tab: OpenConversationTab,
) -> (r: usize)
    ensures
        tabs_view(final(tabs)@) == open_tab(tabs_view(old(tabs)@), active_tab, tab@).0,
        r as int == open_tab(tabs_view(old(tabs)@), active_tab, tab@).1,
{
    let ghost tv = tabs_view(tabs@);
    let id = match &tab.session_id {
        None => {
            match active_tab {
                Some(i) => return i,
                None => {
                    let ghost before = tabs@;
                    tabs.push(tab);
                    assert(tabs_view(tabs@) =~= tabs_view(before).push(tab@));
                    return tabs.len() - 1;
                },
            }
        },
        Some(id) => id.clone(),
    };
    assert(tab@.session_id == Some(id@));
    if tab_position(tabs, id.as_str()).is_some() {
        remove_unbound_tabs(tabs);
        match tab_position(tabs, id.as_str()) {
            Some(index) => {
                let ghost kept = tabs_view(tabs@);
                proof {
                    lemma_tab_index_of(kept, id@);
                }
                let sid = clone_opt(&tabs[index].session_id);
                tabs.set(index, OpenConversationTab { session_id: sid, title: tab.title });
                assert(tabs_view(tabs@) =~= kept.update(index as int, TabView { title: tab@.title, ..kept[index as int] }));
                return index;
            },
            None => {
                let ghost before = tabs@;
                tabs.push(tab);
                assert(tabs_view(tabs@) =~= tabs_view(before).push(tab@));
                return tabs.len() - 1;
            },
        }
    }
    let reuse = match active_tab {
        Some(i) => i < tabs.len() && tabs[i].session_id.is_none(),
        None => false,
    };
    if reuse {
        let i = match active_tab {
            Some(i) => i,
            None => 0,
        };
        let ghost before = tabs@;
        tabs.set(i, tab);
        assert(tabs_view(tabs@) =~= tabs_view(before).update(i as int, tab@));
        i
    } else {
        let ghost before = tabs@;
        tabs.push(tab);
        assert(tabs_view(tabs@) =~= tabs_view(before).push(tab@));
        tabs.len() - 1
    }
}

/// Index of the first placeholder tab.
pub open spec fn first_unbound(tabs: Seq<TabView>) -> Option<int>
    decreases tabs.len(),
{
    if tabs.len() == 0 {
        None
    } else if tabs[0].session_id is None {
        Some(0)
    } else {
        match first_unbound(tabs.drop_first()) {
            Some(i) => Some(i + 1),
            None => None,
        }
    }
}

/// Shows a placeholder tab for a new conversation: the first existing one,
/// or a new one at the end. Returns the index of the tab to show.
pub fn open_new_tab(tabs: &mut Vec<OpenConversationTab>) -> (r: usize)
    ensures
        match first_unbound(tabs_view(old(tabs)@)) {
            Some(i) => r == i && final(tabs)@ == old(tabs)@,
            None => tabs_view(final(tabs)@) == tabs_view(old(tabs)@).push(
                TabView { session_id: None, title: "New conversation"@ },
            ) && r == old(tabs)@.len(),
        },
{
    let ghost tv = tabs_view(tabs@);
    let mut i: usize = 0;
    assert(tv.skip(0) =~= tv);
    while i < tabs.len()
        invariant
            0 <= i <= tabs@.len(),
            tv == tabs_view(tabs@),
            first_unbound(tv) == (match first_unbound(tv.skip(i as int)) {
                Some(j) => Some(j + i),
                None => None,
            }),
        decreases tabs.len() - i,
    {
        assert(tv.skip(i as int).drop_first() =~= tv.skip(i + 1));
        assert(tv.skip(i as int)[0] == tv[i as int]);
        if tabs[i].session_id.is_none() {
            return i;
        }
        i = i + 1;
    }
    let ghost before = tabs@;
    tabs.push(OpenConversationTab { session_id: None, title: "New conversation".to_owned() });
    assert(tabs_view(tabs@) =~= tabs_view(before).push(TabView { session_id: None, title: "New conversation"@ }));
    tabs.len() - 1
}

/// Closes the tab at `index` and returns the tab to select afterwards (see
/// `tab_after_close`); an index past the end closes nothing.
pub fn close_tab(tabs: &mut Vec<OpenConversationTab>, active_tab: Option<usize>, index: usize) -> (r: Option<usize>)
    ensures
        index >= old(tabs)@.len() ==> final(tabs)@ == old(tabs)@ && r == active_tab,
        index < old(tabs)@.len() ==> final(tabs)@ == old(tabs)@.remove(index as int) && match r {
            Some(i) => tab_after_close(active_tab, index as int, final(tabs)@.len() as int) == Some(
                i as int,
            ),
            None => final(tabs)@.len() == 0,
        },
{
    if index >= tabs.len() {
        return active_tab;
    }
    tabs.remove(index);
    active_tab_after_close(active_tab, index, tabs.len())
}

/// A session-ready event is tracked only for the selected session, and
/// only when no other session is being attached.
pub fn should_track_session_ready(
    selected_session: Option<&str>,
    pending_session_target: Option<&str>,
    ready_session_id: &str,
) -> (b: bool)
    ensures
        b == ((match selected_session {
            Some(s) => s@ == ready_session_id@,
            None => false,
        }) && (match pending_session_target {
            Some(t) => t@ == ready_session_id@,
            None => true,
        })),
{
    let selected = match selected_session {
        Some(s) => str_eq(s, ready_session_id),
        None => false,
    };
    let pending_ok = match pending_session_target {
        Some(t) => str_eq(t, ready_session_id),
        None => true,
    };
    selected && pending_ok
}


/// The title a session's tab takes: its conversation's title, or
/// `New conversation` before the session is listed (see
/// `conversation_title`).
pub open spec fn title_for(cs: Seq<ConversationItem>, id: Seq<char>) -> Seq<char> {
    match find_conversation(cs, id) {
        Some(c) => c.title@,
        None => "New conversation"@,
    }
}

/// The selection after an update: the session being attached, when there
/// is one, else the selection as it was.
pub open spec fn selection_after_update(selected: Option<Seq<char>>, target: Option<Seq<char>>) -> Option<
    Seq<char>,
> {
    match target {
        Some(t) => Some(t),
        None => selected,
    }
}

/// The tabs and the active tab after an update with session `sel`
/// selected: a selected session without a tab gets one (see `open_tab`),
/// titled after its conversation, and that tab is shown; otherwise nothing
/// changes.
pub open spec fn tabs_after_update(
    tabs: Seq<TabView>,
    active: Option<usize>,
    sel: Option<Seq<char>>,
    cs: Seq<ConversationItem>,
) -> (Seq<TabView>, Option<usize>) {
    match sel {
        Some(id) => if tab_index_of(tabs, id) is None {
            let (after, index) = open_tab(tabs, active, TabView { session_id: Some(id), title: title_for(cs, id) });
            (after, Some(index as usize))
        } else {
            (tabs, active)
        },
        None => (tabs, active),
    }
}

/// The selection and tab step of applying a client update: the session
/// being attached (`pending_target`) stays selected over whatever the
/// update selected, and then a selected session that has no tab gets one.
pub fn settle_selection_and_tabs(
    selected: &mut Option<String>,
    pending_target: Option<&str>,
    tabs: &mut Vec<OpenConversationTab>,
    active_tab: &mut Option<usize>,
    conversations: &[ConversationItem],
)
    ensures
        opt_view(*final(selected)) == selection_after_update(
            opt_view(*old(selected)),
            match pending_target {
                Some(t) => Some(t@),
                None => None,
            },
        ),
        (tabs_view(final(tabs)@), *final(active_tab)) == tabs_after_update(
            tabs_view(old(tabs)@),
            *old(active_tab),
            opt_view(*final(selected)),
            conversations@,
        ),
{
    if let Some(target) = pending_target {
        *selected = Some(target.to_owned());
    }
    if let Some(id) = selected {
        if tab_position(tabs, id.as_str()).is_none() {
            let title = conversation_title(conversations, id.as_str());
            let tab = OpenConversationTab { session_id: Some(id.clone()), title };
            let index = open_tab_for_session(tabs, *active_tab, tab);
            *active_tab = Some(index);
        }
    }
}

/// Opening a session's tab shows a tab bound to that session, carrying the
/// new tab's title; an already open session also drops every placeholder.
pub proof fn lemma_open_tab_shows_session(tabs: Seq<TabView>, active: Option<usize>, tab: TabView)
    requires
        tab.session_id is Some,
    ensures
        ({
            let (after, index) = open_tab(tabs, active, tab);
            &&& 0 <= index < after.len()
            &&& after[index].session_id == tab.session_id
            &&& after[index].title == tab.title
        }),
{
    let id = tab.session_id->0;
    if tab_index_of(tabs, id) is Some {
        let kept = bound_tabs(tabs);
        lemma_tab_index_of(kept, id);
    }
}

/// The tab selected after a close is one of the remaining tabs.
pub proof fn lemma_close_selects_remaining(active: Option<usize>, removed: int, remaining: int)
    requires
        0 <= removed,
        remaining >= 0,
    ensures
        tab_after_close(active, removed, remaining) matches Some(i) ==> 0 <= i < remaining,
        remaining > 0 ==> tab_after_close(active, removed, remaining) is Some,
{
}


/// After the selection and tab step with session `id` selected, `id` has a
/// tab, and when the step opened it, that tab is the one shown.
pub proof fn lemma_selected_session_has_tab(
    tabs: Seq<TabView>,
    active: Option<usize>,
    id: Seq<char>,
    cs: Seq<ConversationItem>,
)
    requires
        tabs.len() <= usize::MAX,
    ensures
        ({
            let (after, shown) = tabs_after_update(tabs, active, Some(id), cs);
            &&& tab_index_of(after, id) is Some
            &&& tab_index_of(tabs, id) is None ==> (shown is Some && (shown->0 as int) < after.len()
                && after[shown->0 as int].session_id == Some(id))
        }),
{
    lemma_tab_index_of(tabs, id);
    if tab_index_of(tabs, id) is None {
        let tab = TabView { session_id: Some(id), title: title_for(cs, id) };
        lemma_open_tab_shows_session(tabs, active, tab);
        let (after, index) = open_tab(tabs, active, tab);
        assert(0 <= index <= tabs.len());
        assert((index as usize) as int == index);
        lemma_tab_index_of(after, id);
    }
}

/// Closing a tab keeps the selection on the same tab: when the active tab
/// `a` is not the one closed at `r`, the tab selected afterwards, in the
/// tabs that remain, is the tab that was active. When the active tab is the
/// one closed, the tab that followed it is selected, or the one before it
/// when it was the last.
pub proof fn lemma_close_keeps_active_tab<A>(tabs: Seq<A>, a: usize, r: int)
    requires
        0 <= r < tabs.len(),
        a < tabs.len(),
        tabs.len() >= 2,
    ensures
        ({
            let after = tabs.remove(r);
            &&& tab_after_close(Some(a), r, after.len() as int) is Some
            &&& 0 <= tab_after_close(Some(a), r, after.len() as int)->0 < after.len()
            &&& a as int != r ==> after[tab_after_close(Some(a), r, after.len() as int)->0] == tabs[a as int]
            &&& a as int == r ==> after[tab_after_close(Some(a), r, after.len() as int)->0] == if r + 1 < tabs.len() {
                tabs[r + 1]
            } else {
                tabs[r - 1]
            }
        }),
{
    let after = tabs.remove(r);
    assert(after.len() == tabs.len() - 1);
    let j = tab_after_close(Some(a), r, after.len() as int)->0;
    if (a as int) < r {
        assert(after[j] == tabs[j]);
    } else if (a as int) > r {
        assert(j == a - 1);
        assert(after[j] == tabs[j + 1]);
    } else if r + 1 < tabs.len() {
        assert(j == r);
        assert(after[j] == tabs[j + 1]);
    } else {
        assert(j == r - 1);
        assert(after[j] == tabs[j]);
    }
}

} // verus!
