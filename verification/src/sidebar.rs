//! The sidebar's rows: conversations sorted newest first, listed under
//! their groups, then the ungrouped ones, then a collapsible "Archived"
//! section.
use vstd::prelude::*;
use crate::labels::show_ungrouped_group;
use crate::order::{seq_lt, str_lt};
use crate::sessions::ConversationItem;
use crate::text::{clone_opt, opt_view, str_eq};

verus! {

/// Mathematical form of a [`ConversationItem`].
pub struct ConversationView {
    pub session_id: Seq<char>,
    pub title: Seq<char>,
    pub cwd: Option<Seq<char>>,
    pub last_message_at: Option<i64>,
    pub last_turn_failed: bool,
    pub needs_attention: bool,
    pub archived: bool,
    pub pinned: bool,
    pub group_id: Option<Seq<char>>,
}

impl View for ConversationItem {
    type V = ConversationView;

    open spec fn view(&self) -> ConversationView {
        ConversationView {
            session_id: self.session_id@,
            title: self.title@,
            cwd: opt_view(self.cwd),
            last_message_at: self.last_message_at,
            last_turn_failed: self.last_turn_failed,
            needs_attention: self.needs_attention,
            archived: self.archived,
            pinned: self.pinned,
            group_id: opt_view(self.group_id),
        }
    }
}

impl ConversationItem {
    /// A copy of the conversation.
    pub fn duplicate(&self) -> (r: ConversationItem)
        ensures
            r@ == self@,
    {
        ConversationItem {
            session_id: self.session_id.clone(),
            title: self.title.clone(),
            cwd: clone_opt(&self.cwd),
            last_message_at: self.last_message_at,
            last_turn_failed: self.last_turn_failed,
            needs_attention: self.needs_attention,
            archived: self.archived,
            pinned: self.pinned,
            group_id: clone_opt(&self.group_id),
        }
    }
}

/// The conversations, viewed.
pub open spec fn convs_view(cs: Seq<ConversationItem>) -> Seq<ConversationView> {
    cs.map_values(|c: ConversationItem| c@)
}

/// A group of conversations.
#[derive(Clone, Debug, PartialEq, Eq)]
pub struct GroupInfo {
    pub id: String,
    pub name: String,
    pub color: Option<String>,
    pub order: i64,
}

/// One row of the sidebar.
#[derive(Clone, Debug, PartialEq, Eq)]
pub enum SidebarRow {
    Toolbar,
    Group { id: String, name: String, color: Option<String>, count: usize, collapsed: bool },
    Session(ConversationItem),
}

/// Mathematical form of a [`SidebarRow`].
pub enum RowView {
    Toolbar,
    Group { id: Seq<char>, name: Seq<char>, color: Option<Seq<char>>, count: nat, collapsed: bool },
    Session(ConversationView),
}

impl View for SidebarRow {
    type V = RowView;

    open spec fn view(&self) -> RowView {
        match self {
            SidebarRow::Toolbar => RowView::Toolbar,
            SidebarRow::Group { id, name, color, count, collapsed } => RowView::Group {
                id: id@,
                name: name@,
                color: opt_view(*color),
                count: *count as nat,
                collapsed: *collapsed,
            },
            SidebarRow::Session(c) => RowView::Session(c@),
        }
    }
}

/// The rows, viewed.
pub open spec fn rows_view(rows: Seq<SidebarRow>) -> Seq<RowView> {
    rows.map_values(|r: SidebarRow| r@)
}

/// Pseudo-group id of the section listing conversations without a group.
pub open spec fn ungrouped_id() -> Seq<char> {
    "__ungrouped__"@
}

/// Pseudo-group id of the archived conversations' section.
pub open spec fn archived_id() -> Seq<char> {
    "__archived__"@
}

/// `a` is newer than `b`: a timestamp beats none, a later one beats an
/// earlier one.
pub open spec fn newer(a: Option<i64>, b: Option<i64>) -> bool {
    match (a, b) {
        (Some(x), Some(y)) => x > y,
        (Some(_), None) => true,
        _ => false,
    }
}

/// `a` is listed before `b`: newest first, then by session id.
pub open spec fn listed_before(a: ConversationView, b: ConversationView) -> bool {
    newer(a.last_message_at, b.last_message_at) || (a.last_message_at == b.last_message_at
        && seq_lt(a.session_id, b.session_id))
}

/// Where `x` goes in a sorted list: before the first entry listed after it.
pub open spec fn insert_pos(s: Seq<ConversationView>, x: ConversationView) -> int
    decreases s.len(),
{
    if s.len() == 0 {
        0
    } else if listed_before(x, s[0]) {
        0
    } else {
        1 + insert_pos(s.drop_first(), x)
    }
}

/// The conversations in listing order; equal keys keep their order. It is
/// the sorted, stable permutation by `listed_before` (see `lemma_sorted_convs`
/// and `lemma_sorted_convs_stable`).
pub open spec fn sorted_convs(s: Seq<ConversationView>) -> Seq<ConversationView>
    decreases s.len(),
{
    if s.len() == 0 {
        s
    } else {
        let r = sorted_convs(s.drop_last());
        r.insert(insert_pos(r, s.last()), s.last())
    }
}

proof fn lemma_insert_pos_bounds(s: Seq<ConversationView>, x: ConversationView)
    ensures
        0 <= insert_pos(s, x) <= s.len(),
    decreases s.len(),
{
    if s.len() > 0 {
        lemma_insert_pos_bounds(s.drop_first(), x);
    }
}

proof fn lemma_sorted_convs_len(s: Seq<ConversationView>)
    ensures
        sorted_convs(s).len() == s.len(),
    decreases s.len(),
{
    if s.len() > 0 {
        lemma_sorted_convs_len(s.drop_last());
        lemma_insert_pos_bounds(sorted_convs(s.drop_last()), s.last());
    }
}

/// `a` is listed before `b`.
fn before(a: &ConversationItem, b: &ConversationItem) -> (r: bool)
    ensures
        r == listed_before(a@, b@),
{
    let newer_time = match (a.last_message_at, b.last_message_at) {
        (Some(x), Some(y)) => x > y,
        (Some(_), None) => true,
        _ => false,
    };
    newer_time || (a.last_message_at == b.last_message_at && str_lt(a.session_id.as_str(), b.session_id.as_str()))
}

/// Sorts conversations newest first, then by session id, keeping the order
/// of equal keys.
pub fn sort_conversations(cs: &[ConversationItem]) -> (r: Vec<ConversationItem>)
    ensures
        convs_view(r@) == sorted_convs(convs_view(cs@)),
{
    let ghost all = convs_view(cs@);
    let mut r: Vec<ConversationItem> = Vec::new();
    let mut k: usize = 0;
    assert(convs_view(r@) =~= sorted_convs(all.take(0)));
    while k < cs.len()
        invariant
            0 <= k <= cs@.len(),
            all == convs_view(cs@),
            convs_view(r@) == sorted_convs(all.take(k as int)),
        decreases cs.len() - k,
    {
        let x = cs[k].duplicate();
        let ghost rv = convs_view(r@);
        proof {
            assert(all.take(k + 1).drop_last() =~= all.take(k as int));
            assert(all.take(k + 1).last() == x@);
            assert(rv.skip(0) =~= rv);
        }
        let mut p: usize = 0;
        while p < r.len() && !before(&x, &r[p])
            invariant
                0 <= p <= r@.len(),
                rv == convs_view(r@),
                insert_pos(rv, x@) == p + insert_pos(rv.skip(p as int), x@),
            decreases r.len() - p,
        {
            assert(rv.skip(p as int)[0] == r@[p as int]@);
            assert(rv.skip(p as int).drop_first() =~= rv.skip(p + 1));
            p = p + 1;
        }
        proof {
            if p < r@.len() {
                assert(rv.skip(p as int)[0] == r@[p as int]@);
            }
        }
        r.insert(p, x);
        assert(convs_view(r@) =~= rv.insert(p as int, x@));
        k = k + 1;
    }
    assert(all.take(k as int) =~= all);
    r
}

/// The conversations of `s` that satisfy `p`, in order.
pub open spec fn keep(s: Seq<ConversationView>, p: spec_fn(ConversationView) -> bool) -> Seq<ConversationView>
    decreases s.len(),
{
    if s.len() == 0 {
        s
    } else if p(s.last()) {
        keep(s.drop_last(), p).push(s.last())
    } else {
        keep(s.drop_last(), p)
    }
}

/// The visible (non-archived) conversations of a group.
pub open spec fn in_group(gid: Seq<char>) -> spec_fn(ConversationView) -> bool {
    |c: ConversationView| !c.archived && c.group_id == Some(gid)
}

/// Session ids of the conversations shown under the first `n` groups.
pub open spec fn grouped_ids(s: Seq<ConversationView>, gs: Seq<Seq<char>>) -> Seq<Seq<char>>
    decreases gs.len(),
{
    if gs.len() == 0 {
        Seq::empty()
    } else {
        grouped_ids(s, gs.drop_last()) + keep(s, in_group(gs.last())).map_values(
            |c: ConversationView| c.session_id,
        )
    }
}

/// The visible conversations that no group lists.
pub open spec fn ungrouped(s: Seq<ConversationView>, ids: Seq<Seq<char>>) -> spec_fn(ConversationView) -> bool {
    |c: ConversationView| !c.archived && !ids.contains(c.session_id)
}

/// Archived conversations.
pub open spec fn is_archived() -> spec_fn(ConversationView) -> bool {
    |c: ConversationView| c.archived
}

/// Session rows for conversations.
pub open spec fn session_rows(s: Seq<ConversationView>) -> Seq<RowView> {
    s.map_values(|c: ConversationView| RowView::Session(c))
}

/// A section: its header row, and its sessions unless it is collapsed.
pub open spec fn section(
    id: Seq<char>,
    name: Seq<char>,
    color: Option<Seq<char>>,
    sessions: Seq<ConversationView>,
    collapsed: bool,
) -> Seq<RowView> {
    seq![RowView::Group { id, name, color, count: sessions.len(), collapsed }] + (if collapsed {
        Seq::empty()
    } else {
        session_rows(sessions)
    })
}

/// The group sections for the groups, in order.
pub open spec fn group_sections(
    s: Seq<ConversationView>,
    gs: Seq<(Seq<char>, Seq<char>, Option<Seq<char>>)>,
    collapsed: Seq<Seq<char>>,
) -> Seq<RowView>
    decreases gs.len(),
{
    if gs.len() == 0 {
        Seq::empty()
    } else {
        let g = gs.last();
        group_sections(s, gs.drop_last(), collapsed) + section(
            g.0,
            g.1,
            g.2,
            keep(s, in_group(g.0)),
            collapsed.contains(g.0),
        )
    }
}

/// Id, name and color of each group.
pub open spec fn groups_view(gs: Seq<GroupInfo>) -> Seq<(Seq<char>, Seq<char>, Option<Seq<char>>)> {
    gs.map_values(|g: GroupInfo| (g.id@, g.name@, opt_view(g.color)))
}

/// Ids of the groups.
pub open spec fn group_ids(gs: Seq<GroupInfo>) -> Seq<Seq<char>> {
    gs.map_values(|g: GroupInfo| g.id@)
}

/// The sidebar's rows: the toolbar, each group with its visible
/// conversations, the ungrouped conversations (as a section of their own
/// only beside named groups), and an "Archived" section when any
/// conversation is archived. Conversations are listed newest first.
pub open spec fn sidebar_rows(
    cs: Seq<ConversationView>,
    gs: Seq<GroupInfo>,
    collapsed: Seq<Seq<char>>,
) -> Seq<RowView> {
    let s = sorted_convs(cs);
    let ids = grouped_ids(s, group_ids(gs));
    let loose = keep(s, ungrouped(s, ids));
    let old_ones = keep(s, is_archived());
    seq![RowView::Toolbar] + group_sections(s, groups_view(gs), collapsed) + (if gs.len() > 0
        && loose.len() > 0 {
        section(ungrouped_id(), "Ungrouped"@, None, loose, collapsed.contains(ungrouped_id()))
    } else {
        session_rows(loose)
    }) + (if old_ones.len() > 0 {
        section(archived_id(), "Archived"@, None, old_ones, collapsed.contains(archived_id()))
    } else {
        Seq::empty()
    })
}

/// The views of a vector of strings.
pub open spec fn ids_view(v: Seq<String>) -> Seq<Seq<char>> {
    v.map_values(|s: String| s@)
}

/// `ids` holds `id`.
fn contains_id(ids: &Vec<String>, id: &str) -> (b: bool)
    ensures
        b == ids_view(ids@).contains(id@),
{
    let mut i: usize = 0;
    while i < ids.len()
        invariant
            0 <= i <= ids@.len(),
            forall|j: int| 0 <= j < i ==> ids@[j]@ != id@,
        decreases ids.len() - i,
    {
        if str_eq(ids[i].as_str(), id) {
            assert(ids_view(ids@)[i as int] == id@);
            return true;
        }
        i = i + 1;
    }
    assert forall|j: int| 0 <= j < ids_view(ids@).len() implies ids_view(ids@)[j] != id@ by {
        assert(ids_view(ids@)[j] == ids@[j]@);
    }
    false
}

/// Which conversations a section lists.
pub enum Selection {
    Group(Seq<char>),
    Loose(Seq<Seq<char>>),
    Archived,
}

/// The conversation filter of a selection.
pub open spec fn selection_pred(sel: Selection, s: Seq<ConversationView>) -> spec_fn(ConversationView) -> bool {
    match sel {
        Selection::Group(gid) => in_group(gid),
        Selection::Loose(ids) => ungrouped(s, ids),
        Selection::Archived => is_archived(),
    }
}

/// The conversations of `s` in a group (`which == 0`), not listed in
/// `ids` (`which == 1`), or archived (`which == 2`).
fn select(
    s: &Vec<ConversationItem>,
    which: u8,
    gid: &str,
    ids: &Vec<String>,
    sel: Ghost<Selection>,
) -> (r: Vec<ConversationItem>)
    requires
        which == 0 ==> sel@ == Selection::Group(gid@),
        which == 1 ==> sel@ == Selection::Loose(ids_view(ids@)),
        which != 0 && which != 1 ==> sel@ is Archived,
    ensures
        convs_view(r@) == keep(convs_view(s@), selection_pred(sel@, convs_view(s@))),
{
    let ghost sv = convs_view(s@);
    let ghost p = selection_pred(sel@, sv);
    let mut r: Vec<ConversationItem> = Vec::new();
    let mut k: usize = 0;
    assert(convs_view(r@) =~= keep(sv.take(0), p));
    while k < s.len()
        invariant
            0 <= k <= s@.len(),
            sv == convs_view(s@),
            p == selection_pred(sel@, sv),
            which == 0 ==> sel@ == Selection::Group(gid@),
            which == 1 ==> sel@ == Selection::Loose(ids_view(ids@)),
            which != 0 && which != 1 ==> sel@ is Archived,
            convs_view(r@) == keep(sv.take(k as int), p),
        decreases s.len() - k,
    {
        let c = &s[k];
        proof {
            assert(sv.take(k + 1).drop_last() =~= sv.take(k as int));
            assert(sv.take(k + 1).last() == c@);
        }
        let wanted = if which == 0 {
            !c.archived && match &c.group_id {
                Some(g) => str_eq(g.as_str(), gid),
                None => false,
            }
        } else if which == 1 {
            !c.archived && !contains_id(ids, c.session_id.as_str())
        } else {
            c.archived
        };
        assert(wanted == p(c@));
        if wanted {
            let ghost before = r@;
            r.push(c.duplicate());
            assert(convs_view(r@) =~= convs_view(before).push(c@));
        }
        k = k + 1;
    }
    assert(sv.take(k as int) =~= sv);
    r
}

/// Appends a session row per conversation.
fn push_sessions(rows: &mut Vec<SidebarRow>, sessions: &Vec<ConversationItem>)
    ensures
        rows_view(final(rows)@) == rows_view(old(rows)@) + session_rows(convs_view(sessions@)),
{
    let ghost start = rows_view(rows@);
    let mut k: usize = 0;
    assert(session_rows(convs_view(sessions@)).take(0) =~= Seq::<RowView>::empty());
    assert(start + Seq::<RowView>::empty() =~= start);
    while k < sessions.len()
        invariant
            0 <= k <= sessions@.len(),
            rows_view(rows@) == start + session_rows(convs_view(sessions@)).take(k as int),
        decreases sessions.len() - k,
    {
        let ghost before = rows@;
        rows.push(SidebarRow::Session(sessions[k].duplicate()));
        assert(session_rows(convs_view(sessions@)).take(k + 1) =~= session_rows(convs_view(sessions@)).take(
            k as int,
        ).push(RowView::Session(sessions@[k as int]@)));
        assert(rows_view(rows@) =~= rows_view(before).push(RowView::Session(sessions@[k as int]@)));
        k = k + 1;
    }
    assert(session_rows(convs_view(sessions@)).take(k as int) =~= session_rows(convs_view(sessions@)));
}

/// Appends a section: its header and, unless collapsed, its sessions.
fn push_section(
    rows: &mut Vec<SidebarRow>,
    id: String,
    name: String,
    color: Option<String>,
    sessions: &Vec<ConversationItem>,
    collapsed: bool,
)
    ensures
        rows_view(final(rows)@) == rows_view(old(rows)@) + section(
            id@,
            name@,
            opt_view(color),
            convs_view(sessions@),
            collapsed,
        ),
{
    let ghost start = rows_view(rows@);
    let ghost header = RowView::Group {
        id: id@,
        name: name@,
        color: opt_view(color),
        count: sessions@.len(),
        collapsed: collapsed,
    };
    rows.push(SidebarRow::Group { id: id, name: name, color: color, count: sessions.len(), collapsed: collapsed });
    assert(rows_view(rows@) =~= start.push(header));
    if !collapsed {
        push_sessions(rows, sessions);
    }
    assert(convs_view(sessions@).len() == sessions@.len());
    assert(start.push(header) =~= start + seq![header]);
    assert(start + seq![header] + Seq::<RowView>::empty() =~= start + seq![header]);
}

/// Builds the sidebar's rows (see `sidebar_rows`).
pub fn build_sidebar_rows(
    conversations: &[ConversationItem],
    groups: &[GroupInfo],
    collapsed_groups: &Vec<String>,
) -> (rows: Vec<SidebarRow>)
    ensures
        rows_view(rows@) == sidebar_rows(convs_view(conversations@), groups@, ids_view(collapsed_groups@)),
{
    let sorted = sort_conversations(conversations);
    let ghost s = convs_view(sorted@);
    let ghost col = ids_view(collapsed_groups@);
    let mut rows: Vec<SidebarRow> = Vec::new();
    rows.push(SidebarRow::Toolbar);
    let mut ids: Vec<String> = Vec::new();
    let empty_ids: Vec<String> = Vec::new();
    let mut k: usize = 0;
    assert(rows_view(rows@) =~= seq![RowView::Toolbar] + group_sections(s, groups_view(groups@).take(0), col));
    assert(ids_view(ids@) =~= grouped_ids(s, group_ids(groups@).take(0)));
    while k < groups.len()
        invariant
            0 <= k <= groups@.len(),
            s == convs_view(sorted@),
            col == ids_view(collapsed_groups@),
            rows_view(rows@) == seq![RowView::Toolbar] + group_sections(s, groups_view(groups@).take(k as int), col),
            ids_view(ids@) == grouped_ids(s, group_ids(groups@).take(k as int)),
        decreases groups.len() - k,
    {
        let g = &groups[k];
        let sessions = select(&sorted, 0, g.id.as_str(), &empty_ids, Ghost(Selection::Group(g.id@)));
        let mut j: usize = 0;
        let ghost ids_before = ids_view(ids@);
        let ghost new_ids = convs_view(sessions@).map_values(|c: ConversationView| c.session_id);
        assert(ids_view(ids@) =~= ids_before + new_ids.take(0));
        while j < sessions.len()
            invariant
                0 <= j <= sessions@.len(),
                new_ids == convs_view(sessions@).map_values(|c: ConversationView| c.session_id),
                ids_view(ids@) == ids_before + new_ids.take(j as int),
            decreases sessions.len() - j,
        {
            let ghost before = ids@;
            ids.push(sessions[j].session_id.clone());
            assert(new_ids.take(j + 1) =~= new_ids.take(j as int).push(sessions@[j as int].session_id@));
            assert(ids_view(ids@) =~= ids_view(before).push(sessions@[j as int].session_id@));
            j = j + 1;
        }
        let is_collapsed = contains_id(collapsed_groups, g.id.as_str());
        let ghost rows_before = rows_view(rows@);
        push_section(&mut rows, g.id.clone(), g.name.clone(), clone_opt(&g.color), &sessions, is_collapsed);
        proof {
            assert(new_ids.take(j as int) =~= new_ids);
            assert(group_ids(groups@).take(k + 1).drop_last() =~= group_ids(groups@).take(k as int));
            assert(group_ids(groups@).take(k + 1).last() == g.id@);
            assert(groups_view(groups@).take(k + 1).drop_last() =~= groups_view(groups@).take(k as int));
            assert(groups_view(groups@).take(k + 1).last() == (g.id@, g.name@, opt_view(g.color)));
            assert(seq![RowView::Toolbar] + group_sections(s, groups_view(groups@).take(k + 1), col) =~= rows_before
                + section(g.id@, g.name@, opt_view(g.color), convs_view(sessions@), is_collapsed));
        }
        k = k + 1;
    }
    proof {
        assert(groups_view(groups@).take(k as int) =~= groups_view(groups@));
        assert(group_ids(groups@).take(k as int) =~= group_ids(groups@));
    }
    let ghost after_groups = rows_view(rows@);
    let loose = select(&sorted, 1, "", &ids, Ghost(Selection::Loose(ids_view(ids@))));
    if show_ungrouped_group(groups.len(), loose.len()) {
        let is_collapsed = contains_id(collapsed_groups, "__ungrouped__");
        push_section(&mut rows, "__ungrouped__".to_owned(), "Ungrouped".to_owned(), None, &loose, is_collapsed);
    } else {
        push_sessions(&mut rows, &loose);
    }
    let ghost after_loose = rows_view(rows@);
    let old_ones = select(&sorted, 2, "", &empty_ids, Ghost(Selection::Archived));
    if old_ones.len() > 0 {
        let is_collapsed = contains_id(collapsed_groups, "__archived__");
        push_section(&mut rows, "__archived__".to_owned(), "Archived".to_owned(), None, &old_ones, is_collapsed);
    }
    proof {
        assert(convs_view(loose@).len() == loose@.len());
        assert(convs_view(old_ones@).len() == old_ones@.len());
        if old_ones@.len() == 0 {
            assert(after_loose + Seq::<RowView>::empty() =~= after_loose);
        }
        assert(rows_view(rows@) =~= sidebar_rows(convs_view(conversations@), groups@, col));
    }
    rows
}


proof fn lemma_listed_before_order(a: ConversationView, b: ConversationView, c: ConversationView)
    ensures
        !listed_before(a, a),
        listed_before(a, b) ==> !listed_before(b, a),
        listed_before(a, b) && listed_before(b, c) ==> listed_before(a, c),
{
    crate::order::lemma_seq_lt_irreflexive(a.session_id);
    crate::order::lemma_seq_lt_asymmetric(a.session_id, b.session_id);
    crate::order::lemma_seq_lt_transitive(a.session_id, b.session_id, c.session_id);
}

/// Conversations listed in order: none is listed before one that comes
/// earlier.
pub open spec fn listed_in_order(s: Seq<ConversationView>) -> bool {
    forall|i: int, j: int| 0 <= i < j < s.len() ==> !listed_before(#[trigger] s[j], #[trigger] s[i])
}

proof fn lemma_insert_pos(s: Seq<ConversationView>, x: ConversationView)
    ensures
        0 <= insert_pos(s, x) <= s.len(),
        forall|i: int| 0 <= i < insert_pos(s, x) ==> !listed_before(x, #[trigger] s[i]),
        insert_pos(s, x) < s.len() ==> listed_before(x, s[insert_pos(s, x)]),
    decreases s.len(),
{
    if s.len() > 0 && !listed_before(x, s[0]) {
        lemma_insert_pos(s.drop_first(), x);
        assert forall|i: int| 0 <= i < insert_pos(s, x) implies !listed_before(x, #[trigger] s[i]) by {
            if i > 0 {
                assert(s[i] == s.drop_first()[i - 1]);
            }
        }
    }
}

/// The sidebar lists conversations newest first with stable ties: the
/// sorted conversations are in order and are the same conversations.
pub proof fn lemma_sorted_convs(s: Seq<ConversationView>)
    ensures
        listed_in_order(sorted_convs(s)),
        sorted_convs(s).to_multiset() == s.to_multiset(),
    decreases s.len(),
{
    if s.len() > 0 {
        lemma_sorted_convs(s.drop_last());
        let r = sorted_convs(s.drop_last());
        let x = s.last();
        let p = insert_pos(r, x);
        lemma_insert_pos(r, x);
        let n = r.insert(p, x);
        assert forall|i: int, j: int| 0 <= i < j < n.len() implies !listed_before(
            #[trigger] n[j],
            #[trigger] n[i],
        ) by {
            if j < p {
                assert(n[i] == r[i] && n[j] == r[j]);
            } else if j == p {
                assert(n[i] == r[i]);
            } else if i == p {
                assert(n[j] == r[j - 1]);
                if j - 1 > p {
                    assert(!listed_before(r[j - 1], r[p]));
                }
                lemma_listed_before_order(r[j - 1], x, r[p]);
                lemma_listed_before_order(x, r[p], r[p]);
            } else if i < p {
                assert(n[i] == r[i] && n[j] == r[j - 1]);
            } else {
                assert(n[i] == r[i - 1] && n[j] == r[j - 1]);
            }
        }
        vstd::seq_lib::to_multiset_insert(r, p, x);
        assert(s =~= s.drop_last().push(x));
        vstd::seq_lib::to_multiset_build(s.drop_last(), x);
    }
}

/// Two conversations share their listing key: timestamp and session id.
pub open spec fn same_key(a: ConversationView, b: ConversationView) -> bool {
    a.last_message_at == b.last_message_at && a.session_id == b.session_id
}

/// The sort is stable: the conversations that share a listing key come out
/// in the order they went in.
pub proof fn lemma_sorted_convs_stable(s: Seq<ConversationView>, k: ConversationView)
    ensures
        sorted_convs(s).filter(|c: ConversationView| same_key(c, k)) == s.filter(
            |c: ConversationView| same_key(c, k),
        ),
    decreases s.len(),
{
    let pred = |c: ConversationView| same_key(c, k);
    if s.len() > 0 {
        lemma_sorted_convs_stable(s.drop_last(), k);
        lemma_sorted_convs(s.drop_last());
        let r = sorted_convs(s.drop_last());
        let x = s.last();
        let p = insert_pos(r, x);
        lemma_insert_pos(r, x);
        lemma_listed_before_order(x, x, x);
        let head = r.take(p);
        let tail = r.skip(p);
        assert(r.insert(p, x) =~= head + seq![x] + tail);
        assert(r =~= head + tail);
        Seq::filter_distributes_over_add(head, tail, pred);
        Seq::filter_distributes_over_add(head, seq![x], pred);
        Seq::filter_distributes_over_add(head + seq![x], tail, pred);
        assert(seq![x] =~= Seq::<ConversationView>::empty().push(x));
        Seq::<ConversationView>::empty().lemma_filter_push(x, pred);
        assert(Seq::<ConversationView>::empty().filter(pred).len() == 0) by {
            Seq::<ConversationView>::empty().lemma_filter_len(pred);
        }
        assert(s =~= s.drop_last().push(x));
        s.drop_last().lemma_filter_push(x, pred);
        if pred(x) {
            assert forall|j: int| 0 <= j < tail.len() implies !pred(#[trigger] tail[j]) by {
                assert(tail[j] == r[p + j]);
                if pred(tail[j]) {
                    assert(same_key(r[p + j], x));
                    if j > 0 {
                        assert(!listed_before(r[p + j], r[p]));
                    }
                }
            }
            tail.lemma_all_neg_filter_empty(pred);
            assert(tail.filter(pred) =~= Seq::<ConversationView>::empty());
            assert(seq![x].filter(pred) =~= seq![x]);
        } else {
            assert(seq![x].filter(pred) =~= Seq::<ConversationView>::empty());
        }
    }
}

/// Where a conversation dropped on a group row goes: nowhere for the
/// archived section, out of any group for the ungrouped one, else into that
/// group.
pub fn group_drop_target(group_id: &str) -> (r: Option<Option<String>>)
    ensures
        group_id@ == archived_id() ==> r is None,
        group_id@ == ungrouped_id() ==> r == Some(None::<String>),
        group_id@ != archived_id() && group_id@ != ungrouped_id() ==> (r matches Some(Some(g)) && g@ == group_id@),
{
    proof {
        reveal_strlit("__archived__");
        reveal_strlit("__ungrouped__");
        assert(ungrouped_id()[2] != archived_id()[2]);
    }
    if str_eq(group_id, "__archived__") {
        None
    } else if str_eq(group_id, "__ungrouped__") {
        Some(None)
    } else {
        Some(Some(group_id.to_owned()))
    }
}

/// The group a conversation started from a group row's `+` joins: none
/// from the ungrouped section, else that group.
pub fn new_session_group(group_id: &str) -> (r: Option<String>)
    ensures
        group_id@ == ungrouped_id() ==> r is None,
        group_id@ != ungrouped_id() ==> (r matches Some(g) && g@ == group_id@),
{
    if str_eq(group_id, "__ungrouped__") {
        None
    } else {
        Some(group_id.to_owned())
    }
}

/// A group row offers deletion while hovered, unless it is one of the two
/// sections that are not real groups.
pub fn group_can_be_deleted(group_id: &str, hovered: bool) -> (b: bool)
    ensures
        b == (hovered && group_id@ != ungrouped_id() && group_id@ != archived_id()),
{
    hovered && !str_eq(group_id, "__ungrouped__") && !str_eq(group_id, "__archived__")
}

/// The name of a new group: `Group` and the next number.
pub fn next_group_name(group_count: usize) -> (r: String)
    requires
        group_count < usize::MAX,
    ensures
        r@ == "Group "@ + crate::text::decimal((group_count + 1) as nat),
{
    let mut name = "Group ".to_owned();
    let n = crate::text::decimal_string((group_count + 1) as u64);
    crate::text::push_str(&mut name, n.as_str());
    name
}

/// How a session row's status dot is drawn.
#[derive(Clone, Copy, Debug, PartialEq, Eq)]
pub enum SessionStatus {
    /// The conversation needs the user's attention.
    Attention,
    /// The conversation is the selected one.
    Selected,
    /// Neither.
    Idle,
}

/// The status of a session row: attention first, then selection.
pub fn session_status(needs_attention: bool, selected: bool) -> (r: SessionStatus)
    ensures
        r == (if needs_attention {
            SessionStatus::Attention
        } else if selected {
            SessionStatus::Selected
        } else {
            SessionStatus::Idle
        }),
{
    if needs_attention {
        SessionStatus::Attention
    } else if selected {
        SessionStatus::Selected
    } else {
        SessionStatus::Idle
    }
}

/// The pin and archive entries of a session's menu.
pub fn session_menu_labels(pinned: bool, archived: bool) -> (r: (&'static str, &'static str))
    ensures
        r.0@ == (if pinned { "Unpin"@ } else { "Pin"@ }),
        r.1@ == (if archived { "Unarchive"@ } else { "Archive"@ }),
{
    (if pinned { "Unpin" } else { "Pin" }, if archived { "Unarchive" } else { "Archive" })
}

/// The accessible label of a session row: its title, then ` · ` and its
/// path when it shows one.
pub fn session_row_label(title: &str, path: Option<&str>) -> (r: String)
    ensures
        r@ == "Conversation: "@ + title@ + match path {
            Some(p) => " · "@ + p@,
            None => Seq::<char>::empty(),
        },
{
    let mut label = "Conversation: ".to_owned();
    crate::text::push_str(&mut label, title);
    match path {
        Some(p) => {
            crate::text::push_str(&mut label, " · ");
            crate::text::push_str(&mut label, p);
            proof {
                assert(label@ =~= "Conversation: "@ + title@ + (" · "@ + p@));
            }
        },
        None => {
            proof {
                assert(label@ =~= "Conversation: "@ + title@ + Seq::<char>::empty());
            }
        },
    }
    label
}

} // verus!
