//! The workspace watch behind the workbench's Local view: which session's
//! workspace the daemon watches, which directory listings are awaited,
//! which directories are expanded, and the daemon commands each step sends.
use vstd::prelude::*;
use crate::file_tree::{distinct_dirs, is_expanded, listing, DirEntry, DirListing};
use crate::order::{lemma_seq_lt_asymmetric, lemma_seq_lt_irreflexive, lemma_seq_lt_total, lemma_seq_lt_transitive, seq_lt, str_lt};
use crate::sessions::ConversationItem;
use crate::text::{clone_opt, opt_view, str_eq};

verus! {

/// A command for the daemon about the watched workspace.
#[derive(Clone, Debug, PartialEq, Eq)]
pub enum WorkspaceCommand {
    /// Turn the workspace watch of a session on or off.
    WatchWorkspace { session_id: String, enabled: bool },
    /// List a workspace directory (`None` is the root).
    ListDir { session_id: String, path: Option<String> },
}

/// Mathematical form of a [`WorkspaceCommand`].
pub enum CommandView {
    Watch(Seq<char>, bool),
    List(Seq<char>, Option<Seq<char>>),
}

pub open spec fn command_view(c: WorkspaceCommand) -> CommandView {
    match c {
        WorkspaceCommand::WatchWorkspace { session_id, enabled } => CommandView::Watch(session_id@, enabled),
        WorkspaceCommand::ListDir { session_id, path } => CommandView::List(session_id@, opt_view(path)),
    }
}

pub open spec fn commands_view(cs: Seq<WorkspaceCommand>) -> Seq<CommandView> {
    cs.map_values(|c: WorkspaceCommand| command_view(c))
}

/// The conversation of `id` has a working directory.
pub open spec fn has_cwd(cs: Seq<ConversationItem>, id: Seq<char>) -> bool {
    exists|i: int| #![trigger cs[i]] 0 <= i < cs.len() && cs[i].session_id@ == id && cs[i].cwd is Some
}

/// The session whose workspace can be listed: the attached one, once it is
/// ready and its conversation has a working directory.
pub open spec fn listable(ready: bool, attached: Option<Seq<char>>, cs: Seq<ConversationItem>) -> Option<Seq<char>> {
    match attached {
        Some(id) => if ready && has_cwd(cs, id) {
            Some(id)
        } else {
            None
        },
        None => None,
    }
}

/// The session whose workspace can be listed (see `listable`).
pub fn listable_session(ready: bool, attached: &Option<String>, conversations: &[ConversationItem]) -> (r: Option<String>)
    ensures
        opt_view(r) == listable(ready, opt_view(*attached), conversations@),
{
    if !ready {
        return None;
    }
    match attached {
        None => None,
        Some(id) => {
            let mut i: usize = 0;
            while i < conversations.len()
                invariant
                    ready,
                    opt_view(*attached) == Some(id@),
                    0 <= i <= conversations.len(),
                    forall|j: int|
                        #![trigger conversations@[j]]
                        0 <= j < i ==> !(conversations@[j].session_id@ == id@ && conversations@[j].cwd is Some),
                decreases conversations.len() - i,
            {
                if str_eq(conversations[i].session_id.as_str(), id.as_str()) && conversations[i].cwd.is_some() {
                    assert(conversations@[i as int].session_id@ == id@ && conversations@[i as int].cwd is Some);
                    return Some(id.clone());
                }
                i = i + 1;
            }
            None
        },
    }
}

/// The key under which a listing request is awaited: its path, `""` for
/// the root.
pub open spec fn request_key(path: Option<Seq<char>>) -> Seq<char> {
    match path {
        Some(p) => p,
        None => Seq::<char>::empty(),
    }
}

/// The paths whose listings are requested, in order, when each of `paths`
/// is asked for while `pending` are awaited: each one not already awaited,
/// which then is. Returns the requested paths and the awaited keys after.
pub open spec fn request_all(pending: Set<Seq<char>>, paths: Seq<Option<Seq<char>>>) -> (
    Seq<Option<Seq<char>>>,
    Set<Seq<char>>,
)
    decreases paths.len(),
{
    if paths.len() == 0 {
        (Seq::empty(), pending)
    } else {
        let (sent, now) = request_all(pending, paths.drop_last());
        let key = request_key(paths.last());
        if now.contains(key) {
            (sent, now)
        } else {
            (sent.push(paths.last()), now.insert(key))
        }
    }
}

/// Strings in strictly ascending order (so no string twice).
pub open spec fn strictly_sorted(s: Seq<String>) -> bool {
    forall|i: int, j: int| 0 <= i < j < s.len() ==> seq_lt(#[trigger] s[i]@, #[trigger] s[j]@)
}

/// No string twice.
pub open spec fn distinct(s: Seq<String>) -> bool {
    forall|i: int, j: int| 0 <= i < j < s.len() ==> #[trigger] s[i]@ != #[trigger] s[j]@
}

/// The strings of `s`, as a set.
pub open spec fn string_set(s: Seq<String>) -> Set<Seq<char>> {
    Set::new(|p: Seq<char>| is_expanded(s, p))
}

/// Adding a string adds it to the set.
proof fn lemma_set_push(s: Seq<String>, x: String)
    ensures
        string_set(s.push(x)) == string_set(s).insert(x@),
{
    let t = s.push(x);
    assert forall|q: Seq<char>| string_set(t).contains(q) == string_set(s).insert(x@).contains(q) by {
        if is_expanded(s, q) {
            let i = choose|i: int| 0 <= i < s.len() && #[trigger] s[i]@ == q;
            assert(t[i]@ == q);
        }
        if q == x@ {
            assert(t[s.len() as int]@ == q);
        }
        if is_expanded(t, q) {
            let i = choose|i: int| 0 <= i < t.len() && #[trigger] t[i]@ == q;
            if i < s.len() {
                assert(s[i]@ == q);
            }
        }
    }
    assert(string_set(t) =~= string_set(s).insert(x@));
}

/// Inserting a string anywhere adds it to the set.
proof fn lemma_set_insert(s: Seq<String>, k: int, x: String)
    requires
        0 <= k <= s.len(),
    ensures
        string_set(s.insert(k, x)) == string_set(s).insert(x@),
{
    let t = s.insert(k, x);
    assert forall|q: Seq<char>| string_set(t).contains(q) == string_set(s).insert(x@).contains(q) by {
        if is_expanded(s, q) {
            let i = choose|i: int| 0 <= i < s.len() && #[trigger] s[i]@ == q;
            if i < k {
                assert(t[i]@ == q);
            } else {
                assert(t[i + 1]@ == q);
            }
        }
        if q == x@ {
            assert(t[k]@ == q);
        }
        if is_expanded(t, q) {
            let i = choose|i: int| 0 <= i < t.len() && #[trigger] t[i]@ == q;
            if i < k {
                assert(s[i]@ == q);
            } else if i > k {
                assert(s[i - 1]@ == q);
            }
        }
    }
    assert(string_set(t) =~= string_set(s).insert(x@));
}

/// Removing one of distinct strings removes it from the set.
proof fn lemma_set_remove(s: Seq<String>, k: int)
    requires
        0 <= k < s.len(),
        distinct(s),
    ensures
        string_set(s.remove(k)) == string_set(s).remove(s[k]@),
        distinct(s.remove(k)),
{
    let t = s.remove(k);
    assert forall|q: Seq<char>| string_set(t).contains(q) == string_set(s).remove(s[k]@).contains(q) by {
        if is_expanded(s, q) && q != s[k]@ {
            let i = choose|i: int| 0 <= i < s.len() && #[trigger] s[i]@ == q;
            if i < k {
                assert(t[i]@ == q);
            } else {
                assert(t[i - 1]@ == q);
            }
        }
        if is_expanded(t, q) {
            let i = choose|i: int| 0 <= i < t.len() && #[trigger] t[i]@ == q;
            if i < k {
                assert(s[i]@ == q);
            } else {
                assert(s[i + 1]@ == q);
            }
        }
    }
    assert(string_set(t) =~= string_set(s).remove(s[k]@));
    assert forall|i: int, j: int| 0 <= i < j < t.len() implies #[trigger] t[i]@ != #[trigger] t[j]@ by {
        let i2 = if i < k { i } else { i + 1 };
        let j2 = if j < k { j } else { j + 1 };
        assert(s[i2]@ != s[j2]@);
    }
}

/// Strictly sorted strings are distinct.
proof fn lemma_sorted_distinct(s: Seq<String>)
    requires
        strictly_sorted(s),
    ensures
        distinct(s),
{
    assert forall|i: int, j: int| 0 <= i < j < s.len() implies #[trigger] s[i]@ != #[trigger] s[j]@ by {
        assert(seq_lt(s[i]@, s[j]@));
        lemma_seq_lt_irreflexive(s[i]@);
    }
}

/// Index of `p` in distinct strings `v`, if it is there.
fn index_of(v: &Vec<String>, p: &str) -> (r: Option<usize>)
    ensures
        match r {
            Some(i) => i < v@.len() && v@[i as int]@ == p@,
            None => !is_expanded(v@, p@),
        },
{
    let mut i: usize = 0;
    while i < v.len()
        invariant
            0 <= i <= v@.len(),
            forall|j: int| 0 <= j < i ==> #[trigger] v@[j]@ != p@,
        decreases v.len() - i,
    {
        if str_eq(v[i].as_str(), p) {
            return Some(i);
        }
        i = i + 1;
    }
    None
}

/// Where `p` belongs in strictly sorted strings: the first index whose
/// string is not below `p`.
fn sorted_position(v: &Vec<String>, p: &str) -> (r: usize)
    requires
        strictly_sorted(v@),
    ensures
        r <= v@.len(),
        forall|j: int| 0 <= j < r ==> seq_lt(#[trigger] v@[j]@, p@),
        r < v@.len() ==> !seq_lt(v@[r as int]@, p@),
{
    let mut i: usize = 0;
    while i < v.len() && str_lt(v[i].as_str(), p)
        invariant
            0 <= i <= v@.len(),
            forall|j: int| 0 <= j < i ==> seq_lt(#[trigger] v@[j]@, p@),
        decreases v.len() - i,
    {
        i = i + 1;
    }
    i
}

/// Inserting `x` at its sorted position keeps strings strictly sorted,
/// when `x` is not there yet.
proof fn lemma_sorted_insert(s: Seq<String>, k: int, x: String)
    requires
        strictly_sorted(s),
        0 <= k <= s.len(),
        forall|j: int| 0 <= j < k ==> seq_lt(#[trigger] s[j]@, x@),
        k < s.len() ==> seq_lt(x@, s[k]@),
    ensures
        strictly_sorted(s.insert(k, x)),
{
    let t = s.insert(k, x);
    assert forall|i: int, j: int| 0 <= i < j < t.len() implies seq_lt(#[trigger] t[i]@, #[trigger] t[j]@) by {
        if j < k {
            assert(seq_lt(s[i]@, s[j]@));
        } else if j == k {
            assert(seq_lt(s[i]@, x@));
        } else if i < k {
            assert(seq_lt(s[i]@, s[j - 1]@));
            if j - 1 == k {
            } else {
                assert(seq_lt(s[k]@, s[j - 1]@));
                lemma_seq_lt_transitive(x@, s[k]@, s[j - 1]@);
            }
            assert(seq_lt(s[i]@, x@));
            lemma_seq_lt_transitive(s[i]@, x@, s[j - 1]@);
        } else if i == k {
            if j - 1 > k {
                assert(seq_lt(s[k]@, s[j - 1]@));
                lemma_seq_lt_transitive(x@, s[k]@, s[j - 1]@);
            }
        } else {
            assert(seq_lt(s[i - 1]@, s[j - 1]@));
        }
    }
}

/// Removing a string keeps strings strictly sorted.
proof fn lemma_sorted_remove(s: Seq<String>, k: int)
    requires
        strictly_sorted(s),
        0 <= k < s.len(),
    ensures
        strictly_sorted(s.remove(k)),
{
    let t = s.remove(k);
    assert forall|i: int, j: int| 0 <= i < j < t.len() implies seq_lt(#[trigger] t[i]@, #[trigger] t[j]@) by {
        let i2 = if i < k { i } else { i + 1 };
        let j2 = if j < k { j } else { j + 1 };
        assert(seq_lt(s[i2]@, s[j2]@));
    }
}

/// Replacing the listing of a directory changes only what is stored for it.
proof fn lemma_listing_update(ls: Seq<DirListing>, k: int, l: DirListing, d: Seq<char>)
    requires
        0 <= k < ls.len(),
        forall|j: int| 0 <= j < k ==> #[trigger] ls[j].dir@ != ls[k].dir@,
        l.dir@ == ls[k].dir@,
    ensures
        listing(ls.update(k, l), d) == if d == l.dir@ {
            Some(l.entries@)
        } else {
            listing(ls, d)
        },
    decreases k,
{
    let t = ls.update(k, l);
    if k > 0 {
        assert(t.drop_first() =~= ls.drop_first().update(k - 1, l));
        assert forall|j: int| 0 <= j < k - 1 implies #[trigger] ls.drop_first()[j].dir@ != ls.drop_first()[k - 1].dir@ by {
            assert(ls[j + 1].dir@ != ls[k].dir@);
        }
        lemma_listing_update(ls.drop_first(), k - 1, l, d);
        assert(ls[0].dir@ != ls[k].dir@);
        assert(t[0] == ls[0]);
        assert(listing(t, d) == if t[0].dir@ == d {
            Some(t[0].entries@)
        } else {
            listing(t.drop_first(), d)
        });
    } else {
        assert(t.drop_first() =~= ls.drop_first());
        assert(t[0] == l);
    }
}

/// Appending the listing of a directory not stored yet changes only what is
/// stored for it.
proof fn lemma_listing_push(ls: Seq<DirListing>, l: DirListing, d: Seq<char>)
    requires
        forall|j: int| 0 <= j < ls.len() ==> #[trigger] ls[j].dir@ != l.dir@,
    ensures
        listing(ls.push(l), d) == if d == l.dir@ {
            Some(l.entries@)
        } else {
            listing(ls, d)
        },
    decreases ls.len(),
{
    let t = ls.push(l);
    if ls.len() > 0 {
        assert(t.drop_first() =~= ls.drop_first().push(l));
        assert forall|j: int| 0 <= j < ls.drop_first().len() implies #[trigger] ls.drop_first()[j].dir@ != l.dir@ by {
            assert(ls[j + 1].dir@ != l.dir@);
        }
        lemma_listing_push(ls.drop_first(), l, d);
        assert(t[0] == ls[0]);
        assert(ls[0].dir@ != l.dir@);
    } else {
        assert(t.drop_first() =~= Seq::<DirListing>::empty());
        assert(t[0] == l);
        assert(listing(t.drop_first(), d) is None);
    }
}

/// No listing is stored for a directory no listing names.
proof fn lemma_no_listing(ls: Seq<DirListing>, d: Seq<char>)
    requires
        forall|j: int| 0 <= j < ls.len() ==> #[trigger] ls[j].dir@ != d,
    ensures
        listing(ls, d) is None,
    decreases ls.len(),
{
    if ls.len() > 0 {
        assert(ls[0].dir@ != d);
        assert forall|j: int| 0 <= j < ls.drop_first().len() implies #[trigger] ls.drop_first()[j].dir@ != d by {
            assert(ls[j + 1].dir@ != d);
        }
        lemma_no_listing(ls.drop_first(), d);
    }
}

/// The stored listing of a directory is that of its first listing.
proof fn lemma_first_listing(ls: Seq<DirListing>, k: int)
    requires
        0 <= k < ls.len(),
        forall|j: int| 0 <= j < k ==> #[trigger] ls[j].dir@ != ls[k].dir@,
    ensures
        listing(ls, ls[k].dir@) == Some(ls[k].entries@),
    decreases k,
{
    if k > 0 {
        assert forall|j: int| 0 <= j < k - 1 implies #[trigger] ls.drop_first()[j].dir@ != ls.drop_first()[k - 1].dir@ by {
            assert(ls[j + 1].dir@ != ls[k].dir@);
        }
        lemma_first_listing(ls.drop_first(), k - 1);
        assert(ls[0].dir@ != ls[k].dir@);
    }
}

/// The session whose workspace should be watched: the listable one while
/// the Local view is shown.
pub open spec fn desired_watch(local_view: bool, session: Option<Seq<char>>) -> Option<Seq<char>> {
    if local_view {
        session
    } else {
        None
    }
}

/// The commands that move the watch from `from` to `to`: the old watch off,
/// then the new one on and its root listed.
pub open spec fn watch_changes(from: Option<Seq<char>>, to: Option<Seq<char>>) -> Seq<CommandView> {
    let off = match from {
        Some(id) => seq![CommandView::Watch(id, false)],
        None => Seq::empty(),
    };
    let on = match to {
        Some(id) => seq![CommandView::Watch(id, true), CommandView::List(id, None)],
        None => Seq::empty(),
    };
    off + on
}

/// What is asked for when the watched workspace changed: the root, then
/// each expanded directory in order.
pub open spec fn refresh_paths(expanded: Seq<String>) -> Seq<Option<Seq<char>>> {
    seq![None::<Seq<char>>] + expanded.map_values(|s: String| Some(s@))
}

/// Listing requests for the given paths of session `id`.
pub open spec fn list_commands(id: Seq<char>, paths: Seq<Option<Seq<char>>>) -> Seq<CommandView> {
    paths.map_values(|p: Option<Seq<char>>| CommandView::List(id, p))
}

/// No directory is asked for twice while its listing is awaited: the
/// requests sent for any paths name distinct directories, none of them
/// awaited before, and afterwards all of them are awaited.
pub proof fn lemma_requests_distinct(pending: Set<Seq<char>>, paths: Seq<Option<Seq<char>>>)
    ensures
        ({
            let (sent, now) = request_all(pending, paths);
            &&& forall|i: int, j: int|
                0 <= i < j < sent.len() ==> request_key(#[trigger] sent[i]) != request_key(#[trigger] sent[j])
            &&& forall|i: int| 0 <= i < sent.len() ==> !pending.contains(request_key(#[trigger] sent[i]))
            &&& forall|i: int| 0 <= i < sent.len() ==> now.contains(request_key(#[trigger] sent[i]))
            &&& forall|k: Seq<char>| pending.contains(k) ==> now.contains(k)
        }),
    decreases paths.len(),
{
    if paths.len() > 0 {
        lemma_requests_distinct(pending, paths.drop_last());
        let (sent, now) = request_all(pending, paths.drop_last());
        let key = request_key(paths.last());
        if !now.contains(key) {
            let sent2 = sent.push(paths.last());
            assert forall|i: int, j: int| 0 <= i < j < sent2.len() implies request_key(#[trigger] sent2[i])
                != request_key(#[trigger] sent2[j]) by {
                if j == sent.len() {
                    assert(now.contains(request_key(sent[i])));
                } else {
                    assert(request_key(sent[i]) != request_key(sent[j]));
                }
            }
            assert forall|i: int| 0 <= i < sent2.len() implies !pending.contains(request_key(#[trigger] sent2[i])) by {
                if i < sent.len() {
                    assert(!pending.contains(request_key(sent[i])));
                }
            }
            assert forall|i: int| 0 <= i < sent2.len() implies now.insert(key).contains(request_key(#[trigger] sent2[i])) by {
                if i < sent.len() {
                    assert(now.contains(request_key(sent[i])));
                }
            }
        }
    }
}

/// Whether two optional session ids are the same.
fn same_session(a: &Option<String>, b: &Option<String>) -> (r: bool)
    ensures
        r == (opt_view(*a) == opt_view(*b)),
{
    match (a, b) {
        (Some(x), Some(y)) => str_eq(x.as_str(), y.as_str()),
        (None, None) => true,
        _ => false,
    }
}

/// Adds `key` to a set of distinct strings, or removes it when it is there
/// (expanded transcript parts, collapsed sidebar groups).
pub fn toggle_member(set: &mut Vec<String>, key: &str)
    requires
        distinct(old(set)@),
    ensures
        distinct(final(set)@),
        string_set(final(set)@) == if string_set(old(set)@).contains(key@) {
            string_set(old(set)@).remove(key@)
        } else {
            string_set(old(set)@).insert(key@)
        },
{
    match index_of(set, key) {
        Some(i) => {
            proof {
                lemma_set_remove(set@, i as int);
                assert(string_set(set@).contains(key@));
            }
            set.remove(i);
        },
        None => {
            let k = key.to_owned();
            proof {
                lemma_set_push(set@, k);
                assert forall|i: int, j: int| 0 <= i < j < set@.push(k).len() implies #[trigger] set@.push(k)[i]@
                    != #[trigger] set@.push(k)[j]@ by {
                    if j == set@.len() {
                        assert(set@[i]@ != key@);
                    } else {
                        assert(set@[i]@ != set@[j]@);
                    }
                }
            }
            set.push(k);
        },
    }
}

/// The workspace watch and what the file tree has fetched of it.
#[derive(Clone, Debug)]
pub struct WorkspaceTree {
    /// The session whose workspace the daemon watches.
    pub watching: Option<String>,
    /// Directories whose listings were requested and have not arrived.
    pub pending: Vec<String>,
    /// Expanded directories, in ascending order.
    pub expanded: Vec<String>,
    /// Received listings, one per directory.
    pub listings: Vec<DirListing>,
}

impl WorkspaceTree {
    /// Nothing awaited twice, expanded directories in order, one listing
    /// per directory.
    pub open spec fn wf(&self) -> bool {
        &&& distinct(self.pending@)
        &&& strictly_sorted(self.expanded@)
        &&& distinct_dirs(self.listings@)
    }

    /// The awaited directories (the root as `""`).
    pub open spec fn pending_set(&self) -> Set<Seq<char>> {
        string_set(self.pending@)
    }

    /// Nothing watched, awaited, expanded or fetched.
    pub fn new() -> (t: WorkspaceTree)
        ensures
            t.wf(),
            t.watching is None,
            t.pending@.len() == 0,
            t.expanded@.len() == 0,
            t.listings@.len() == 0,
    {
        WorkspaceTree { watching: None, pending: Vec::new(), expanded: Vec::new(), listings: Vec::new() }
    }

    /// Asks for the listing of `path` (`None`: the workspace root) of the
    /// listable `session` (see `listable_session`), unless there is none or
    /// that listing is already awaited.
    pub fn request_dir_listing(&mut self, session: &Option<String>, path: Option<String>) -> (r: Option<WorkspaceCommand>)
        requires
            old(self).wf(),
        ensures
            final(self).wf(),
            final(self).watching == old(self).watching,
            final(self).expanded == old(self).expanded,
            final(self).listings == old(self).listings,
            match opt_view(*session) {
                Some(id) => if old(self).pending_set().contains(request_key(opt_view(path))) {
                    r is None && final(self).pending == old(self).pending
                } else {
                    &&& r is Some
                    &&& command_view(r->0) == CommandView::List(id, opt_view(path))
                    &&& final(self).pending_set() == old(self).pending_set().insert(request_key(opt_view(path)))
                },
                None => r is None && final(self).pending == old(self).pending,
            },
    {
        let session_id = match session {
            Some(id) => id,
            None => return None,
        };
        let key = match &path {
            Some(p) => p.clone(),
            None => String::new(),
        };
        proof {
            assert(key@ == request_key(opt_view(path)));
        }
        match index_of(&self.pending, key.as_str()) {
            Some(i) => {
                proof {
                    assert(self.pending_set().contains(key@));
                }
                None
            },
            None => {
                proof {
                    lemma_set_push(self.pending@, key);
                    assert forall|i: int, j: int|
                        0 <= i < j < self.pending@.push(key).len() implies #[trigger] self.pending@.push(key)[i]@
                        != #[trigger] self.pending@.push(key)[j]@ by {
                        if j == self.pending@.len() {
                            assert(self.pending@[i]@ != key@);
                        } else {
                            assert(self.pending@[i]@ != self.pending@[j]@);
                        }
                    }
                }
                self.pending.push(key);
                Some(WorkspaceCommand::ListDir { session_id: session_id.clone(), path })
            },
        }
    }

    /// The expanded directories.
    pub open spec fn expanded_set(&self) -> Set<Seq<char>> {
        string_set(self.expanded@)
    }

    /// Expands a collapsed directory, asking for its listing when none was
    /// received, or collapses an expanded one.
    pub fn toggle_dir(&mut self, session: &Option<String>, path: String) -> (r: Option<WorkspaceCommand>)
        requires
            old(self).wf(),
        ensures
            final(self).wf(),
            final(self).watching == old(self).watching,
            final(self).listings == old(self).listings,
            if old(self).expanded_set().contains(path@) {
                &&& final(self).expanded_set() == old(self).expanded_set().remove(path@)
                &&& r is None
                &&& final(self).pending == old(self).pending
            } else {
                &&& final(self).expanded_set() == old(self).expanded_set().insert(path@)
                &&& if listing(old(self).listings@, path@) is None && opt_view(*session) is Some
                    && !old(self).pending_set().contains(path@) {
                    &&& r is Some
                    &&& command_view(r->0) == CommandView::List(opt_view(*session)->0, Some(path@))
                    &&& final(self).pending_set() == old(self).pending_set().insert(path@)
                } else {
                    r is None && final(self).pending == old(self).pending
                }
            },
    {
        let k = sorted_position(&self.expanded, path.as_str());
        if k < self.expanded.len() && str_eq(self.expanded[k].as_str(), path.as_str()) {
            proof {
                lemma_sorted_distinct(self.expanded@);
                lemma_set_remove(self.expanded@, k as int);
                lemma_sorted_remove(self.expanded@, k as int);
                assert(self.expanded_set().contains(path@));
            }
            self.expanded.remove(k);
            return None;
        }
        proof {
            if k < self.expanded@.len() {
                lemma_seq_lt_total(path@, self.expanded@[k as int]@);
            }
            assert(!self.expanded_set().contains(path@)) by {
                if is_expanded(self.expanded@, path@) {
                    let i = choose|i: int| 0 <= i < self.expanded@.len() && #[trigger] self.expanded@[i]@ == path@;
                    if i < k {
                        lemma_seq_lt_irreflexive(path@);
                    } else {
                        if i > k {
                            assert(seq_lt(self.expanded@[k as int]@, self.expanded@[i]@));
                        }
                        lemma_seq_lt_asymmetric(path@, self.expanded@[k as int]@);
                    }
                }
            }
            lemma_set_insert(self.expanded@, k as int, path);
            lemma_sorted_insert(self.expanded@, k as int, path);
        }
        let listed = self.has_listing(path.as_str());
        self.expanded.insert(k, path.clone());
        if listed {
            None
        } else {
            self.request_dir_listing(session, Some(path))
        }
    }

    /// Whether a listing of `dir` was received.
    fn has_listing(&self, dir: &str) -> (b: bool)
        ensures
            b == (listing(self.listings@, dir@) is Some),
    {
        match self.listing_index(dir) {
            Some(k) => {
                proof {
                    lemma_first_listing(self.listings@, k as int);
                }
                true
            },
            None => false,
        }
    }

    /// Index of the listing of `dir`, if one was received.
    fn listing_index(&self, dir: &str) -> (r: Option<usize>)
        ensures
            match r {
                Some(k) => k < self.listings@.len() && self.listings@[k as int].dir@ == dir@ && forall|j: int|
                    0 <= j < k ==> #[trigger] self.listings@[j].dir@ != dir@,
                None => listing(self.listings@, dir@) is None && forall|j: int|
                    0 <= j < self.listings@.len() ==> #[trigger] self.listings@[j].dir@ != dir@,
            },
    {
        let mut i: usize = 0;
        while i < self.listings.len()
            invariant
                0 <= i <= self.listings@.len(),
                forall|j: int| 0 <= j < i ==> #[trigger] self.listings@[j].dir@ != dir@,
            decreases self.listings@.len() - i,
        {
            if str_eq(self.listings[i].dir.as_str(), dir) {
                return Some(i);
            }
            i = i + 1;
        }
        proof {
            lemma_no_listing(self.listings@, dir@);
        }
        None
    }

    /// Keeps the daemon's workspace watch on the listable `session` while the
    /// Local view is shown, and off otherwise. On a change it turns the old
    /// watch off, forgets what was fetched, and (if there is a session to
    /// watch) turns its watch on and asks for the workspace root.
    pub fn sync_watch(&mut self, local_view: bool, session: &Option<String>) -> (cmds: Vec<WorkspaceCommand>)
        requires
            old(self).wf(),
        ensures
            final(self).wf(),
            opt_view(final(self).watching) == desired_watch(local_view, opt_view(*session)),
            if opt_view(old(self).watching) == desired_watch(local_view, opt_view(*session)) {
                cmds@.len() == 0 && *final(self) == *old(self)
            } else {
                &&& commands_view(cmds@) == watch_changes(
                    opt_view(old(self).watching),
                    desired_watch(local_view, opt_view(*session)),
                )
                &&& final(self).expanded@.len() == 0
                &&& final(self).listings@.len() == 0
                &&& final(self).pending_set() == match desired_watch(local_view, opt_view(*session)) {
                    Some(_) => Set::<Seq<char>>::empty().insert(Seq::<char>::empty()),
                    None => Set::<Seq<char>>::empty(),
                }
            },
    {
        let desired = if local_view {
            clone_opt(session)
        } else {
            None
        };
        if same_session(&self.watching, &desired) {
            return Vec::new();
        }
        let mut cmds: Vec<WorkspaceCommand> = Vec::new();
        if let Some(previous) = &self.watching {
            cmds.push(WorkspaceCommand::WatchWorkspace { session_id: previous.clone(), enabled: false });
        }
        self.watching = None;
        self.pending = Vec::new();
        self.expanded = Vec::new();
        self.listings = Vec::new();
        proof {
            assert(self.pending_set() =~= Set::<Seq<char>>::empty());
        }
        if let Some(id) = &desired {
            cmds.push(WorkspaceCommand::WatchWorkspace { session_id: id.clone(), enabled: true });
            self.watching = clone_opt(&desired);
            let request = self.request_dir_listing(session, None);
            if let Some(command) = request {
                cmds.push(command);
            }
        }
        proof {
            assert(commands_view(cmds@) =~= watch_changes(
                opt_view(old(self).watching),
                desired_watch(local_view, opt_view(*session)),
            ));
            assert(self.pending_set() =~= match desired_watch(local_view, opt_view(*session)) {
                Some(_) => Set::<Seq<char>>::empty().insert(Seq::<char>::empty()),
                None => Set::<Seq<char>>::empty(),
            });
        }
        cmds
    }

    /// Takes in a directory listing the daemon sent for `listing_session`.
    /// An answer to an awaited request is stored; any other listing of the
    /// watched workspace means it changed, and the root and every expanded
    /// directory are asked for again (each unless already awaited).
    pub fn apply_listing(
        &mut self,
        session: &Option<String>,
        listing_session: &Option<String>,
        listing_path: &Option<String>,
        entries: Vec<DirEntry>,
    ) -> (cmds: Vec<WorkspaceCommand>)
        requires
            old(self).wf(),
        ensures
            final(self).wf(),
            final(self).watching == old(self).watching,
            final(self).expanded == old(self).expanded,
            if opt_view(*listing_session) != opt_view(old(self).watching) {
                cmds@.len() == 0 && *final(self) == *old(self)
            } else if listing_path is Some && old(self).pending_set().contains(listing_path->0@) {
                &&& cmds@.len() == 0
                &&& final(self).pending_set() == old(self).pending_set().remove(listing_path->0@)
                &&& forall|d: Seq<char>| #[trigger] listing(final(self).listings@, d) == if d == listing_path->0@ {
                    Some(entries@)
                } else {
                    listing(old(self).listings@, d)
                }
            } else if old(self).watching is Some && opt_view(*session) is Some {
                let (sent, now) = request_all(old(self).pending_set(), refresh_paths(old(self).expanded@));
                &&& commands_view(cmds@) == list_commands(opt_view(*session)->0, sent)
                &&& final(self).pending_set() == now
                &&& final(self).listings == old(self).listings
            } else {
                cmds@.len() == 0 && *final(self) == *old(self)
            },
    {
        if !same_session(listing_session, &self.watching) {
            return Vec::new();
        }
        if let Some(path) = listing_path {
            if let Some(i) = index_of(&self.pending, path.as_str()) {
                proof {
                    lemma_set_remove(self.pending@, i as int);
                }
                self.pending.remove(i);
                self.store_listing(path, entries);
                return Vec::new();
            }
        }
        let mut cmds: Vec<WorkspaceCommand> = Vec::new();
        if self.watching.is_none() || session.is_none() {
            return cmds;
        }
        let ghost paths = refresh_paths(self.expanded@);
        let ghost start = self.pending_set();
        let ghost id = opt_view(*session)->0;
        let n = self.expanded.len();
        let mut i: usize = 0;
        assert(paths.take(0) =~= Seq::<Option<Seq<char>>>::empty());
        while i <= n
            invariant_except_break
                i <= n,
                commands_view(cmds@) == list_commands(id, request_all(start, paths.take(i as int)).0),
                self.pending_set() == request_all(start, paths.take(i as int)).1,
            invariant
                self.wf(),
                n == self.expanded@.len(),
                paths == refresh_paths(self.expanded@),
                paths.len() == n + 1,
                opt_view(*session) == Some(id),
                self.watching == old(self).watching,
                self.expanded == old(self).expanded,
                self.listings == old(self).listings,
                start == old(self).pending_set(),
            ensures
                commands_view(cmds@) == list_commands(id, request_all(start, paths).0),
                self.pending_set() == request_all(start, paths).1,
            decreases n - i,
        {
            let path = if i == 0 {
                None
            } else {
                Some(self.expanded[i - 1].clone())
            };
            let ghost before = cmds@;
            proof {
                assert(opt_view(path) == paths[i as int]);
                assert(paths.take(i + 1).drop_last() =~= paths.take(i as int));
                assert(paths.take(i + 1).last() == paths[i as int]);
            }
            let request = self.request_dir_listing(session, path);
            if let Some(command) = request {
                cmds.push(command);
                proof {
                    let sent = request_all(start, paths.take(i as int)).0;
                    assert(commands_view(cmds@) =~= commands_view(before).push(command_view(command)));
                    assert(list_commands(id, sent.push(paths[i as int])) =~= list_commands(id, sent).push(
                        CommandView::List(id, paths[i as int]),
                    ));
                }
            }
            if i == n {
                proof {
                    assert(paths.take(n + 1) =~= paths);
                }
                break;
            }
            i = i + 1;
        }
        cmds
    }

    /// Stores the listing of `dir`, replacing any stored one.
    fn store_listing(&mut self, dir: &String, entries: Vec<DirEntry>)
        requires
            distinct_dirs(old(self).listings@),
        ensures
            distinct_dirs(final(self).listings@),
            final(self).watching == old(self).watching,
            final(self).pending == old(self).pending,
            final(self).expanded == old(self).expanded,
            forall|d: Seq<char>| #[trigger] listing(final(self).listings@, d) == if d == dir@ {
                Some(entries@)
            } else {
                listing(old(self).listings@, d)
            },
    {
        let l = DirListing { dir: dir.clone(), entries };
        match self.listing_index(dir.as_str()) {
            Some(k) => {
                proof {
                    assert forall|d: Seq<char>| #[trigger] listing(self.listings@.update(k as int, l), d) == if d == dir@ {
                        Some(l.entries@)
                    } else {
                        listing(self.listings@, d)
                    } by {
                        lemma_listing_update(self.listings@, k as int, l, d);
                    }
                    assert forall|i: int, j: int| 0 <= i < j < self.listings@.update(k as int, l).len() implies
                        #[trigger] self.listings@.update(k as int, l)[i].dir@ != #[trigger] self.listings@.update(k as int, l)[j].dir@ by {
                        if i != k && j != k {
                            assert(self.listings@[i].dir@ != self.listings@[j].dir@);
                        } else if i == k {
                            assert(self.listings@[k as int].dir@ != self.listings@[j].dir@);
                        } else {
                            assert(self.listings@[i].dir@ != self.listings@[k as int].dir@);
                        }
                    }
                }
                self.listings.set(k, l);
            },
            None => {
                proof {
                    assert forall|d: Seq<char>| #[trigger] listing(self.listings@.push(l), d) == if d == dir@ {
                        Some(l.entries@)
                    } else {
                        listing(self.listings@, d)
                    } by {
                        lemma_listing_push(self.listings@, l, d);
                    }
                    assert forall|i: int, j: int| 0 <= i < j < self.listings@.push(l).len() implies
                        #[trigger] self.listings@.push(l)[i].dir@ != #[trigger] self.listings@.push(l)[j].dir@ by {
                        if j == self.listings@.len() {
                            assert(self.listings@[i].dir@ != dir@);
                        } else {
                            assert(self.listings@[i].dir@ != self.listings@[j].dir@);
                        }
                    }
                }
                self.listings.push(l);
            },
        }
    }
}

} // verus!
