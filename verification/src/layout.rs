//! Which shell panels are collapsed, and how that is kept in the shared
//! state as a map from section keys to "collapsed" flags.
use vstd::prelude::*;
use crate::text::str_eq;

verus! {

/// The shared map from section keys to their collapsed flag.
#[derive(Clone, Debug)]
pub struct CollapsedState {
    entries: Vec<(String, bool)>,
}

/// Entries of the map, as (key, flag) pairs.
pub open spec fn pairs_view(v: Seq<(String, bool)>) -> Seq<(Seq<char>, bool)> {
    v.map_values(|p: (String, bool)| (p.0@, p.1))
}

/// Index of the first entry with key `k`.
pub open spec fn index_of_key(s: Seq<(Seq<char>, bool)>, k: Seq<char>) -> Option<int>
    decreases s.len(),
{
    if s.len() == 0 {
        None
    } else if s[0].0 == k {
        Some(0)
    } else {
        match index_of_key(s.drop_first(), k) {
            Some(i) => Some(i + 1),
            None => None,
        }
    }
}

/// The flag stored for `k`.
pub open spec fn lookup(s: Seq<(Seq<char>, bool)>, k: Seq<char>) -> Option<bool> {
    match index_of_key(s, k) {
        Some(i) => Some(s[i].1),
        None => None,
    }
}

/// The map with `k` set to `v`.
pub open spec fn insert_key(s: Seq<(Seq<char>, bool)>, k: Seq<char>, v: bool) -> Seq<(Seq<char>, bool)> {
    match index_of_key(s, k) {
        Some(i) => s.update(i, (k, v)),
        None => s.push((k, v)),
    }
}

/// The map without `k`.
pub open spec fn remove_key(s: Seq<(Seq<char>, bool)>, k: Seq<char>) -> Seq<(Seq<char>, bool)>
    decreases s.len(),
{
    if s.len() == 0 {
        s
    } else if s.last().0 == k {
        remove_key(s.drop_last(), k)
    } else {
        remove_key(s.drop_last(), k).push(s.last())
    }
}

pub proof fn lemma_index_of_key(s: Seq<(Seq<char>, bool)>, k: Seq<char>)
    ensures
        match index_of_key(s, k) {
            Some(i) => 0 <= i < s.len() && s[i].0 == k && forall|j: int| 0 <= j < i ==> s[j].0 != k,
            None => forall|j: int| 0 <= j < s.len() ==> s[j].0 != k,
        },
    decreases s.len(),
{
    if s.len() > 0 {
        lemma_index_of_key(s.drop_first(), k);
        if s[0].0 != k {
            assert forall|j: int| 0 < j < s.len() implies s[j].0 == s.drop_first()[j - 1].0 by {}
        }
    }
}

/// `index_of_key` is the first index with the key.
proof fn lemma_index_of_key_first(s: Seq<(Seq<char>, bool)>, k: Seq<char>, i: int)
    requires
        0 <= i < s.len(),
        s[i].0 == k,
        forall|j: int| 0 <= j < i ==> s[j].0 != k,
    ensures
        index_of_key(s, k) == Some(i),
    decreases s.len(),
{
    if i > 0 {
        assert(s[0].0 != k);
        assert forall|j: int| 0 <= j < i - 1 implies s.drop_first()[j].0 != k by {
            assert(s.drop_first()[j] == s[j + 1]);
        }
        lemma_index_of_key_first(s.drop_first(), k, i - 1);
    }
}

/// Setting one key leaves the others as they were.
pub proof fn lemma_lookup_insert(s: Seq<(Seq<char>, bool)>, k: Seq<char>, v: bool, k2: Seq<char>)
    ensures
        lookup(insert_key(s, k, v), k2) == (if k2 == k { Some(v) } else { lookup(s, k2) }),
{
    lemma_index_of_key(s, k);
    lemma_index_of_key(s, k2);
    let t = insert_key(s, k, v);
    lemma_index_of_key(t, k2);
    match index_of_key(s, k) {
        Some(i) => {
            if k2 == k {
                lemma_index_of_key_first(t, k2, i);
            } else {
                match index_of_key(s, k2) {
                    Some(j) => lemma_index_of_key_first(t, k2, j),
                    None => {},
                }
            }
        },
        None => {
            if k2 == k {
                lemma_index_of_key_first(t, k2, s.len() as int);
            } else {
                match index_of_key(s, k2) {
                    Some(j) => lemma_index_of_key_first(t, k2, j),
                    None => {},
                }
            }
        },
    }
}

/// Looking up a key after appending an entry.
proof fn lemma_lookup_push(r: Seq<(Seq<char>, bool)>, x: (Seq<char>, bool), k: Seq<char>)
    ensures
        lookup(r.push(x), k) == (match lookup(r, k) {
            Some(b) => Some(b),
            None => if x.0 == k {
                Some(x.1)
            } else {
                None
            },
        }),
{
    let t = r.push(x);
    lemma_index_of_key(r, k);
    lemma_index_of_key(t, k);
    match index_of_key(r, k) {
        Some(i) => {
            lemma_index_of_key_first(t, k, i);
        },
        None => {
            if x.0 == k {
                lemma_index_of_key_first(t, k, r.len() as int);
            }
        },
    }
}

/// Removing one key leaves the others as they were.
pub proof fn lemma_lookup_remove(s: Seq<(Seq<char>, bool)>, k: Seq<char>, k2: Seq<char>)
    ensures
        lookup(remove_key(s, k), k2) == (if k2 == k { None } else { lookup(s, k2) }),
    decreases s.len(),
{
    if s.len() == 0 {
        lemma_index_of_key(s, k2);
    } else {
        lemma_lookup_remove(s.drop_last(), k, k2);
        assert(s =~= s.drop_last().push(s.last()));
        lemma_lookup_push(s.drop_last(), s.last(), k2);
        if s.last().0 != k {
            lemma_lookup_push(remove_key(s.drop_last(), k), s.last(), k2);
        }
    }
}

impl View for CollapsedState {
    type V = Seq<(Seq<char>, bool)>;

    closed spec fn view(&self) -> Seq<(Seq<char>, bool)> {
        pairs_view(self.entries@)
    }
}

impl CollapsedState {
    /// An empty map.
    pub fn new() -> (s: CollapsedState)
        ensures
            s@ == Seq::<(Seq<char>, bool)>::empty(),
    {
        let s = CollapsedState { entries: Vec::new() };
        assert(s@ =~= Seq::<(Seq<char>, bool)>::empty());
        s
    }

    /// Position of the first entry with the key.
    fn position(&self, key: &str) -> (r: Option<usize>)
        ensures
            match r {
                Some(i) => index_of_key(self@, key@) == Some(i as int),
                None => index_of_key(self@, key@) is None,
            },
    {
        let ghost s = self@;
        let mut i: usize = 0;
        while i < self.entries.len()
            invariant
                0 <= i <= self.entries@.len(),
                s == self@,
                s.len() == self.entries@.len(),
                forall|j: int| 0 <= j < i ==> s[j].0 != key@,
            decreases self.entries.len() - i,
        {
            assert(s[i as int] == (self.entries@[i as int].0@, self.entries@[i as int].1));
            if str_eq(self.entries[i].0.as_str(), key) {
                proof {
                    lemma_index_of_key_first(s, key@, i as int);
                }
                return Some(i);
            }
            i = i + 1;
        }
        proof {
            lemma_index_of_key(s, key@);
        }
        None
    }

    /// The flag stored for the key.
    pub fn get(&self, key: &str) -> (r: Option<bool>)
        ensures
            r == lookup(self@, key@),
    {
        proof {
            lemma_index_of_key(self@, key@);
        }
        match self.position(key) {
            Some(i) => {
                assert(self@[i as int] == (self.entries@[i as int].0@, self.entries@[i as int].1));
                Some(self.entries[i].1)
            },
            None => None,
        }
    }

    /// Sets the flag of the key.
    pub fn insert(&mut self, key: &str, value: bool)
        ensures
            final(self)@ == insert_key(old(self)@, key@, value),
    {
        proof {
            lemma_index_of_key(self@, key@);
        }
        match self.position(key) {
            Some(i) => {
                let ghost before = self.entries@;
                self.entries.set(i, (key.to_owned(), value));
                assert(pairs_view(self.entries@) =~= pairs_view(before).update(i as int, (key@, value)));
            },
            None => {
                let ghost before = self.entries@;
                self.entries.push((key.to_owned(), value));
                assert(pairs_view(self.entries@) =~= pairs_view(before).push((key@, value)));
            },
        }
    }

    /// Removes the key.
    pub fn remove(&mut self, key: &str)
        ensures
            final(self)@ == remove_key(old(self)@, key@),
    {
        let ghost all = self@;
        let mut old_entries: Vec<(String, bool)> = Vec::new();
        std::mem::swap(&mut self.entries, &mut old_entries);
        let mut k: usize = 0;
        assert(pairs_view(self.entries@) =~= remove_key(all.take(0), key@));
        while k < old_entries.len()
            invariant
                0 <= k <= old_entries.len(),
                all == pairs_view(old_entries@),
                pairs_view(self.entries@) == remove_key(all.take(k as int), key@),
            decreases old_entries.len() - k,
        {
            proof {
                assert(all.take(k + 1).drop_last() =~= all.take(k as int));
                assert(all.take(k + 1).last() == (old_entries@[k as int].0@, old_entries@[k as int].1));
            }
            if !str_eq(old_entries[k].0.as_str(), key) {
                let ghost before = self.entries@;
                let pair = (old_entries[k].0.clone(), old_entries[k].1);
                self.entries.push(pair);
                assert(pairs_view(self.entries@) =~= pairs_view(before).push(
                    (old_entries@[k as int].0@, old_entries@[k as int].1),
                ));
            }
            k = k + 1;
        }
        assert(all.take(k as int) =~= all);
    }
}

/// Which shell panels are collapsed.
#[derive(Clone, Copy, Debug, Default, PartialEq, Eq)]
pub struct ShellLayoutState {
    pub sidebar_collapsed: bool,
    pub workbench_collapsed: bool,
    pub terminal_collapsed: bool,
    pub changes_expanded: bool,
    pub local_expanded: bool,
    pub activity_expanded: bool,
}

/// The section keys of the shell's panels.
pub open spec fn key_sidebar() -> Seq<char> {
    "shell.sidebar"@
}

pub open spec fn key_workbench() -> Seq<char> {
    "shell.workbench"@
}

pub open spec fn key_terminal() -> Seq<char> {
    "shell.terminal"@
}

pub open spec fn key_changes() -> Seq<char> {
    "shell.changes"@
}

pub open spec fn key_local() -> Seq<char> {
    "shell.local"@
}

pub open spec fn key_activity() -> Seq<char> {
    "shell.activity"@
}

/// A section is collapsed when its flag is stored and set.
pub open spec fn flag(s: Seq<(Seq<char>, bool)>, k: Seq<char>) -> bool {
    match lookup(s, k) {
        Some(b) => b,
        None => false,
    }
}

/// The layout that the shared state describes.
pub open spec fn layout_from(s: Seq<(Seq<char>, bool)>) -> ShellLayoutState {
    ShellLayoutState {
        sidebar_collapsed: flag(s, key_sidebar()),
        workbench_collapsed: flag(s, key_workbench()),
        terminal_collapsed: flag(s, key_terminal()),
        changes_expanded: !flag(s, key_changes()),
        local_expanded: !flag(s, key_local()),
        activity_expanded: !flag(s, key_activity()),
    }
}

/// A collapsed section is stored as `true`; an open one is removed.
pub open spec fn set_flag(s: Seq<(Seq<char>, bool)>, k: Seq<char>, collapsed: bool) -> Seq<(Seq<char>, bool)> {
    if collapsed {
        insert_key(s, k, true)
    } else {
        remove_key(s, k)
    }
}

/// The shared state after a layout is written to it.
pub open spec fn written(s: Seq<(Seq<char>, bool)>, l: ShellLayoutState) -> Seq<(Seq<char>, bool)> {
    let s1 = set_flag(s, key_sidebar(), l.sidebar_collapsed);
    let s2 = set_flag(s1, key_workbench(), l.workbench_collapsed);
    let s3 = set_flag(s2, key_terminal(), l.terminal_collapsed);
    let s4 = set_flag(s3, key_changes(), !l.changes_expanded);
    let s5 = set_flag(s4, key_local(), !l.local_expanded);
    set_flag(s5, key_activity(), !l.activity_expanded)
}

impl ShellLayoutState {
    /// Reads the layout from the shared state; a missing key is not collapsed.
    pub fn from_state(state: &CollapsedState) -> (l: ShellLayoutState)
        ensures
            l == layout_from(state@),
    {
        let sidebar = state.get("shell.sidebar");
        let workbench = state.get("shell.workbench");
        let terminal = state.get("shell.terminal");
        let changes = state.get("shell.changes");
        let local = state.get("shell.local");
        let activity = state.get("shell.activity");
        ShellLayoutState {
            sidebar_collapsed: sidebar == Some(true),
            workbench_collapsed: workbench == Some(true),
            terminal_collapsed: terminal == Some(true),
            changes_expanded: !(changes == Some(true)),
            local_expanded: !(local == Some(true)),
            activity_expanded: !(activity == Some(true)),
        }
    }

    /// Writes the layout to the shared state, one key per panel.
    pub fn write_state(self, state: &mut CollapsedState)
        ensures
            final(state)@ == written(old(state)@, self),
    {
        set_key(state, "shell.sidebar", self.sidebar_collapsed);
        set_key(state, "shell.workbench", self.workbench_collapsed);
        set_key(state, "shell.terminal", self.terminal_collapsed);
        set_key(state, "shell.changes", !self.changes_expanded);
        set_key(state, "shell.local", !self.local_expanded);
        set_key(state, "shell.activity", !self.activity_expanded);
    }
}

fn set_key(state: &mut CollapsedState, key: &str, collapsed: bool)
    ensures
        final(state)@ == set_flag(old(state)@, key@, collapsed),
{
    if collapsed {
        state.insert(key, true);
    } else {
        state.remove(key);
    }
}

/// Setting a flag leaves the other keys' flags as they were.
proof fn lemma_flag_set(s: Seq<(Seq<char>, bool)>, k: Seq<char>, c: bool, k2: Seq<char>)
    ensures
        flag(set_flag(s, k, c), k2) == (if k2 == k { c } else { flag(s, k2) }),
{
    lemma_lookup_insert(s, k, true, k2);
    lemma_lookup_remove(s, k, k2);
}

/// The flag of `k` after a layout is written.
proof fn lemma_flag_written(s: Seq<(Seq<char>, bool)>, l: ShellLayoutState, k: Seq<char>)
    ensures
        flag(written(s, l), k) == (if k == key_activity() {
            !l.activity_expanded
        } else if k == key_local() {
            !l.local_expanded
        } else if k == key_changes() {
            !l.changes_expanded
        } else if k == key_terminal() {
            l.terminal_collapsed
        } else if k == key_workbench() {
            l.workbench_collapsed
        } else if k == key_sidebar() {
            l.sidebar_collapsed
        } else {
            flag(s, k)
        }),
{
    let s1 = set_flag(s, key_sidebar(), l.sidebar_collapsed);
    let s2 = set_flag(s1, key_workbench(), l.workbench_collapsed);
    let s3 = set_flag(s2, key_terminal(), l.terminal_collapsed);
    let s4 = set_flag(s3, key_changes(), !l.changes_expanded);
    let s5 = set_flag(s4, key_local(), !l.local_expanded);
    lemma_flag_set(s, key_sidebar(), l.sidebar_collapsed, k);
    lemma_flag_set(s1, key_workbench(), l.workbench_collapsed, k);
    lemma_flag_set(s2, key_terminal(), l.terminal_collapsed, k);
    lemma_flag_set(s3, key_changes(), !l.changes_expanded, k);
    lemma_flag_set(s4, key_local(), !l.local_expanded, k);
    lemma_flag_set(s5, key_activity(), !l.activity_expanded, k);
}

/// Layout round trip: writing a layout to any shared state and reading it
/// back gives the same layout.
pub proof fn lemma_layout_round_trip(s: Seq<(Seq<char>, bool)>, l: ShellLayoutState)
    ensures
        layout_from(written(s, l)) == l,
{
    reveal_strlit("shell.sidebar");
    reveal_strlit("shell.workbench");
    reveal_strlit("shell.terminal");
    reveal_strlit("shell.changes");
    reveal_strlit("shell.local");
    reveal_strlit("shell.activity");
    assert(key_sidebar()[6] != key_changes()[6]);
    assert(key_terminal()[6] != key_activity()[6]);
    assert(key_sidebar().len() == 13);
    assert(key_workbench().len() == 15);
    assert(key_terminal().len() == 14);
    assert(key_changes().len() == 13);
    assert(key_local().len() == 11);
    assert(key_activity().len() == 14);
    assert(key_sidebar() != key_workbench());
    assert(key_sidebar() != key_terminal());
    assert(key_sidebar() != key_changes());
    assert(key_sidebar() != key_local());
    assert(key_sidebar() != key_activity());
    assert(key_workbench() != key_terminal());
    assert(key_workbench() != key_changes());
    assert(key_workbench() != key_local());
    assert(key_workbench() != key_activity());
    assert(key_terminal() != key_changes());
    assert(key_terminal() != key_local());
    assert(key_terminal() != key_activity());
    assert(key_changes() != key_local());
    assert(key_changes() != key_activity());
    assert(key_local() != key_activity());
    lemma_flag_written(s, l, key_sidebar());
    lemma_flag_written(s, l, key_workbench());
    lemma_flag_written(s, l, key_terminal());
    lemma_flag_written(s, l, key_changes());
    lemma_flag_written(s, l, key_local());
    lemma_flag_written(s, l, key_activity());
}

/// Writing a layout touches only the six panel keys.
pub proof fn lemma_write_keeps_other_keys(s: Seq<(Seq<char>, bool)>, l: ShellLayoutState, k: Seq<char>)
    requires
        k != key_sidebar(),
        k != key_workbench(),
        k != key_terminal(),
        k != key_changes(),
        k != key_local(),
        k != key_activity(),
    ensures
        lookup(written(s, l), k) == lookup(s, k),
{
    let s1 = set_flag(s, key_sidebar(), l.sidebar_collapsed);
    let s2 = set_flag(s1, key_workbench(), l.workbench_collapsed);
    let s3 = set_flag(s2, key_terminal(), l.terminal_collapsed);
    let s4 = set_flag(s3, key_changes(), !l.changes_expanded);
    let s5 = set_flag(s4, key_local(), !l.local_expanded);
    lemma_lookup_insert(s, key_sidebar(), true, k);
    lemma_lookup_remove(s, key_sidebar(), k);
    lemma_lookup_insert(s1, key_workbench(), true, k);
    lemma_lookup_remove(s1, key_workbench(), k);
    lemma_lookup_insert(s2, key_terminal(), true, k);
    lemma_lookup_remove(s2, key_terminal(), k);
    lemma_lookup_insert(s3, key_changes(), true, k);
    lemma_lookup_remove(s3, key_changes(), k);
    lemma_lookup_insert(s4, key_local(), true, k);
    lemma_lookup_remove(s4, key_local(), k);
    lemma_lookup_insert(s5, key_activity(), true, k);
    lemma_lookup_remove(s5, key_activity(), k);
}

} // verus!
