//! The workbench file tree: fetched directory listings flattened into the
//! visible rows of a tree in which only expanded directories show children.
use vstd::prelude::*;
use crate::text::{lemma_len_le_utf8_len, push_str, str_len};

verus! {

/// One entry of a fetched directory listing.
#[derive(Clone, Debug, PartialEq, Eq)]
pub struct DirEntry {
    pub name: String,
    pub is_dir: bool,
    pub size: Option<u64>,
}

/// The fetched listing of one workspace directory (`""` is the root).
#[derive(Clone, Debug, PartialEq, Eq)]
pub struct DirListing {
    pub dir: String,
    pub entries: Vec<DirEntry>,
}

/// One visible row in the workbench file tree.
#[derive(Clone, Debug, PartialEq, Eq)]
pub struct FileTreeRow {
    pub path: String,
    pub name: String,
    pub is_dir: bool,
    pub depth: usize,
    pub expanded: bool,
    pub loaded: bool,
}

/// Mathematical form of a [`FileTreeRow`].
pub struct RowView {
    pub path: Seq<char>,
    pub name: Seq<char>,
    pub is_dir: bool,
    pub depth: nat,
    pub expanded: bool,
    pub loaded: bool,
}

impl FileTreeRow {
    pub open spec fn view(&self) -> RowView {
        RowView {
            path: self.path@,
            name: self.name@,
            is_dir: self.is_dir,
            depth: self.depth as nat,
            expanded: self.expanded,
            loaded: self.loaded,
        }
    }
}

/// The rows of a vector, viewed.
pub open spec fn rows_view(rows: Seq<FileTreeRow>) -> Seq<RowView> {
    rows.map_values(|r: FileTreeRow| r.view())
}

/// The listing stored for `dir` (the first one, if several were stored).
pub open spec fn listing(ls: Seq<DirListing>, dir: Seq<char>) -> Option<Seq<DirEntry>>
    decreases ls.len(),
{
    if ls.len() == 0 {
        None
    } else if ls[0].dir@ == dir {
        Some(ls[0].entries@)
    } else {
        listing(ls.drop_first(), dir)
    }
}

/// Longest directory key among the listings.
pub open spec fn max_dir_len(ls: Seq<DirListing>) -> nat
    decreases ls.len(),
{
    if ls.len() == 0 {
        0
    } else {
        let rest = max_dir_len(ls.drop_first());
        if ls[0].dir@.len() > rest {
            ls[0].dir@.len()
        } else {
            rest
        }
    }
}

/// `expanded` holds `path`.
pub open spec fn is_expanded(expanded: Seq<String>, path: Seq<char>) -> bool {
    exists|i: int| 0 <= i < expanded.len() && #[trigger] expanded[i]@ == path
}

/// Workspace-relative path of `name` inside `dir`.
pub open spec fn join_path(dir: Seq<char>, name: Seq<char>) -> Seq<char> {
    if dir.len() == 0 {
        name
    } else {
        dir + seq!['/'] + name
    }
}

/// The row shown for `entry` inside `dir`.
pub open spec fn entry_row(
    ls: Seq<DirListing>,
    expanded: Seq<String>,
    dir: Seq<char>,
    depth: nat,
    entry: DirEntry,
) -> RowView {
    let path = join_path(dir, entry.name@);
    RowView {
        path: path,
        name: entry.name@,
        is_dir: entry.is_dir,
        depth: depth,
        expanded: is_expanded(expanded, path),
        loaded: listing(ls, path) is Some,
    }
}

/// Whether the tree descends into `entry` inside `dir`: an expanded
/// directory whose listing has been fetched.
pub open spec fn descends(
    ls: Seq<DirListing>,
    expanded: Seq<String>,
    dir: Seq<char>,
    entry: DirEntry,
) -> bool {
    let path = join_path(dir, entry.name@);
    entry.is_dir && is_expanded(expanded, path) && listing(ls, path) is Some && path.len()
        > dir.len()
}

/// Visible rows below `dir` (empty when `dir` has no fetched listing).
pub open spec fn tree_rows(ls: Seq<DirListing>, expanded: Seq<String>, dir: Seq<char>, depth: nat) -> Seq<
    RowView,
>
    decreases max_dir_len(ls) - dir.len(), 1int, 0int,
{
    match listing(ls, dir) {
        None => Seq::empty(),
        Some(children) => child_rows(ls, expanded, dir, depth, children, 0),
    }
}

/// Visible rows of `children[k..]` inside `dir`.
pub open spec fn child_rows(
    ls: Seq<DirListing>,
    expanded: Seq<String>,
    dir: Seq<char>,
    depth: nat,
    children: Seq<DirEntry>,
    k: int,
) -> Seq<RowView>
    decreases max_dir_len(ls) - dir.len(), 0int, children.len() - k,
{
    if k < 0 || k >= children.len() {
        Seq::empty()
    } else {
        let entry = children[k];
        let path = join_path(dir, entry.name@);
        let below = if descends(ls, expanded, dir, entry) {
            proof {
                lemma_listing_len(ls, path);
            }
            tree_rows(ls, expanded, path, depth + 1)
        } else {
            Seq::empty()
        };
        seq![entry_row(ls, expanded, dir, depth, entry)] + below + child_rows(
            ls,
            expanded,
            dir,
            depth,
            children,
            k + 1,
        )
    }
}

/// A directory that has a listing is no longer than the longest key.
pub proof fn lemma_listing_len(ls: Seq<DirListing>, dir: Seq<char>)
    ensures
        listing(ls, dir) is Some ==> dir.len() <= max_dir_len(ls),
    decreases ls.len(),
{
    if ls.len() > 0 {
        lemma_listing_len(ls.drop_first(), dir);
    }
}

/// No two listings for one directory: the listings form a map from
/// directory to entries.
pub open spec fn distinct_dirs(ls: Seq<DirListing>) -> bool {
    forall|i: int, j: int| 0 <= i < j < ls.len() ==> #[trigger] ls[i].dir@ != #[trigger] ls[j].dir@
}

/// The walk never revisits the root through an entry with an empty name.
pub open spec fn walk_terminates(ls: Seq<DirListing>, expanded: Seq<String>) -> bool {
    match listing(ls, Seq::<char>::empty()) {
        None => true,
        Some(root) => forall|i: int|
            0 <= i < root.len() && (#[trigger] root[i]).is_dir && root[i].name@.len() == 0
                ==> !is_expanded(expanded, Seq::<char>::empty()),
    }
}

/// Workspace-relative path of `name` inside `dir`.
pub fn join_tree_path(dir: &str, name: &str) -> (r: String)
    ensures
        r@ == join_path(dir@, name@),
{
    let mut r = String::new();
    if dir.is_empty() {
        push_str(&mut r, name);
    } else {
        push_str(&mut r, dir);
        push_str(&mut r, "/");
        push_str(&mut r, name);
        proof {
            reveal_strlit("/");
        }
    }
    r
}

/// The listing fetched for `dir`, if any.
fn find_listing<'a>(ls: &'a Vec<DirListing>, dir: &String) -> (r: Option<&'a Vec<DirEntry>>)
    ensures
        match r {
            Some(v) => listing(ls@, dir@) == Some(v@),
            None => listing(ls@, dir@) is None,
        },
{
    let mut i: usize = 0;
    assert(ls@.skip(0) =~= ls@);
    while i < ls.len()
        invariant
            0 <= i <= ls.len(),
            listing(ls@, dir@) == listing(ls@.skip(i as int), dir@),
        decreases ls.len() - i,
    {
        assert(ls@.skip(i as int).drop_first() =~= ls@.skip(i + 1));
        if ls[i].dir == *dir {
            return Some(&ls[i].entries);
        }
        i = i + 1;
    }
    None
}

/// `expanded` holds `path`.
fn contains_path(expanded: &Vec<String>, path: &String) -> (r: bool)
    ensures
        r == is_expanded(expanded@, path@),
{
    let mut i: usize = 0;
    while i < expanded.len()
        invariant
            0 <= i <= expanded.len(),
            forall|k: int| 0 <= k < i ==> expanded@[k]@ != path@,
        decreases expanded.len() - i,
    {
        if expanded[i] == *path {
            return true;
        }
        i = i + 1;
    }
    false
}

/// `child_rows` splits into the row of the first remaining child, its
/// subtree and the rest.
proof fn lemma_child_rows_step(
    ls: Seq<DirListing>,
    expanded: Seq<String>,
    dir: Seq<char>,
    depth: nat,
    children: Seq<DirEntry>,
    k: int,
)
    requires
        0 <= k < children.len(),
    ensures
        child_rows(ls, expanded, dir, depth, children, k) == seq![
            entry_row(ls, expanded, dir, depth, children[k]),
        ] + (if descends(ls, expanded, dir, children[k]) {
            tree_rows(ls, expanded, join_path(dir, children[k].name@), depth + 1)
        } else {
            Seq::empty()
        }) + child_rows(ls, expanded, dir, depth, children, k + 1),
{
}

/// Descending always moves to a strictly longer path.
proof fn lemma_descend_longer(
    ls: Seq<DirListing>,
    expanded: Seq<String>,
    dir: Seq<char>,
    children: Seq<DirEntry>,
    k: int,
)
    requires
        walk_terminates(ls, expanded),
        listing(ls, dir) == Some(children),
        0 <= k < children.len(),
        children[k].is_dir,
        is_expanded(expanded, join_path(dir, children[k].name@)),
    ensures
        join_path(dir, children[k].name@).len() > dir.len(),
{
    if dir.len() == 0 {
        assert(dir =~= Seq::<char>::empty());
        if children[k].name@.len() == 0 {
            assert(join_path(dir, children[k].name@) =~= Seq::<char>::empty());
        }
    }
}

/// The row that a visible entry shows.
fn make_row(
    ls: &Vec<DirListing>,
    expanded: &Vec<String>,
    dir: &String,
    depth: usize,
    entry: &DirEntry,
) -> (r: (FileTreeRow, bool))
    ensures
        r.0.view() == entry_row(ls@, expanded@, dir@, depth as nat, *entry),
        r.1 == (entry.is_dir && is_expanded(expanded@, r.0.path@) && listing(ls@, r.0.path@) is Some),
        r.0.path@ == join_path(dir@, entry.name@),
{
    let path = join_tree_path(dir.as_str(), entry.name.as_str());
    let is_expanded = contains_path(expanded, &path);
    let loaded = find_listing(ls, &path).is_some();
    let descend = entry.is_dir && is_expanded && loaded;
    (
        FileTreeRow {
            path: path,
            name: entry.name.clone(),
            is_dir: entry.is_dir,
            depth: depth,
            expanded: is_expanded,
            loaded: loaded,
        },
        descend,
    )
}

fn walk_all(
    ls: &Vec<DirListing>,
    expanded: &Vec<String>,
    dir: &String,
    depth: usize,
    rows: &mut Vec<FileTreeRow>,
)
    requires
        walk_terminates(ls@, expanded@),
        depth <= dir@.len(),
    ensures
        rows_view(final(rows)@) == rows_view(old(rows)@) + tree_rows(ls@, expanded@, dir@, depth as nat),
    decreases max_dir_len(ls@) - dir@.len(),
{
    let ghost start = rows_view(rows@);
    match find_listing(ls, dir) {
        None => {
            assert(rows_view(rows@) =~= start + Seq::<RowView>::empty());
        },
        Some(children) => {
            let mut k: usize = 0;
            while k < children.len()
                invariant
                    0 <= k <= children.len(),
                    listing(ls@, dir@) == Some(children@),
                    walk_terminates(ls@, expanded@),
                    depth <= dir@.len(),
                    rows_view(rows@) + child_rows(ls@, expanded@, dir@, depth as nat, children@, k as int)
                        == start + tree_rows(ls@, expanded@, dir@, depth as nat),
                decreases children.len() - k,
            {
                let (row, descend) = make_row(ls, expanded, dir, depth, &children[k]);
                let path = row.path.clone();
                proof {
                    lemma_child_rows_step(ls@, expanded@, dir@, depth as nat, children@, k as int);
                }
                let ghost before = rows_view(rows@);
                rows.push(row);
                assert(rows_view(rows@) =~= before + seq![entry_row(ls@, expanded@, dir@, depth as nat, children@[k as int])]);
                if descend {
                    proof {
                        lemma_listing_len(ls@, path@);
                        lemma_descend_longer(ls@, expanded@, dir@, children@, k as int);
                    }
                    let n = str_len(path.as_str());
                    proof {
                        lemma_len_le_utf8_len(path@);
                    }
                    walk_all(ls, expanded, &path, depth + 1, rows);
                }
                k = k + 1;
            }
        },
    }
}

/// Flattens fetched directory listings into the visible tree rows. Only
/// expanded directories with a fetched listing contribute children.
pub fn collect_file_tree_rows(entries: &Vec<DirListing>, expanded: &Vec<String>) -> (rows: Vec<
    FileTreeRow,
>)
    requires
        distinct_dirs(entries@),
        walk_terminates(entries@, expanded@),
    ensures
        rows_view(rows@) == tree_rows(entries@, expanded@, Seq::empty(), 0),
{
    let mut rows: Vec<FileTreeRow> = Vec::new();
    let root = String::new();
    assert(rows_view(rows@) =~= Seq::<RowView>::empty());
    walk_all(entries, expanded, &root, 0, &mut rows);
    assert(rows_view(rows@) =~= tree_rows(entries@, expanded@, Seq::empty(), 0));
    rows
}

fn count_rows(ls: &Vec<DirListing>, expanded: &Vec<String>, dir: &String, depth: Ghost<nat>) -> (n: usize)
    requires
        walk_terminates(ls@, expanded@),
        tree_rows(ls@, expanded@, dir@, depth@).len() <= usize::MAX,
    ensures
        n == tree_rows(ls@, expanded@, dir@, depth@).len(),
    decreases max_dir_len(ls@) - dir@.len(),
{
    match find_listing(ls, dir) {
        None => 0,
        Some(children) => {
            let mut total: usize = 0;
            let mut k: usize = 0;
            while k < children.len()
                invariant
                    0 <= k <= children.len(),
                    listing(ls@, dir@) == Some(children@),
                    walk_terminates(ls@, expanded@),
                    tree_rows(ls@, expanded@, dir@, depth@).len() <= usize::MAX,
                    total + child_rows(ls@, expanded@, dir@, depth@, children@, k as int).len()
                        == tree_rows(ls@, expanded@, dir@, depth@).len(),
                decreases children.len() - k,
            {
                proof {
                    lemma_child_rows_step(ls@, expanded@, dir@, depth@, children@, k as int);
                }
                let path = join_tree_path(dir.as_str(), children[k].name.as_str());
                let mut here: usize = 1;
                if children[k].is_dir && contains_path(expanded, &path) && find_listing(ls, &path).is_some() {
                    proof {
                        lemma_listing_len(ls@, path@);
                        lemma_descend_longer(ls@, expanded@, dir@, children@, k as int);
                    }
                    here = here + count_rows(ls, expanded, &path, Ghost((depth@ + 1) as nat));
                }
                total = total + here;
                k = k + 1;
            }
            total
        },
    }
}

/// Counts the visible rows of the file tree without building them.
pub fn file_tree_row_count(entries: &Vec<DirListing>, expanded: &Vec<String>) -> (n: usize)
    requires
        distinct_dirs(entries@),
        walk_terminates(entries@, expanded@),
        tree_rows(entries@, expanded@, Seq::empty(), 0).len() <= usize::MAX,
    ensures
        n == tree_rows(entries@, expanded@, Seq::empty(), 0).len(),
{
    let root = String::new();
    assert(root@ =~= Seq::<char>::empty());
    count_rows(entries, expanded, &root, Ghost(0))
}

/// Clamps `x` into `[0, hi]`.
pub open spec fn clamp(x: int, hi: int) -> int {
    if x < 0 {
        0
    } else if x > hi {
        hi
    } else {
        x
    }
}

/// The rows of `v` whose positions, counted from `base`, fall in `[start, end)`.
pub open spec fn window(v: Seq<RowView>, base: int, start: int, end: int) -> Seq<RowView> {
    v.subrange(clamp(start - base, v.len() as int), clamp(end - base, v.len() as int))
}

proof fn lemma_window_concat(a: Seq<RowView>, b: Seq<RowView>, base: int, start: int, end: int)
    requires
        start <= end,
    ensures
        window(a + b, base, start, end) =~= window(a, base, start, end) + window(
            b,
            base + a.len(),
            start,
            end,
        ),
{
    let ab = a + b;
    let lo = clamp(start - base, ab.len() as int);
    let hi = clamp(end - base, ab.len() as int);
    let wa = window(a, base, start, end);
    let wb = window(b, base + a.len(), start, end);
    assert(window(a + b, base, start, end).len() == wa.len() + wb.len());
    assert forall|i: int| 0 <= i < wa.len() + wb.len() implies #[trigger] window(a + b, base, start, end)[i] == (wa + wb)[i] by {
        if i < wa.len() {
        } else {
        }
    }
}

proof fn lemma_window_prefix(v: Seq<RowView>, n: int, base: int, start: int, end: int)
    requires
        0 <= n <= v.len(),
        start <= end,
        end <= base + n,
    ensures
        window(v, base, start, end) =~= window(v.take(n), base, start, end),
{
}

fn walk_range(
    ls: &Vec<DirListing>,
    expanded: &Vec<String>,
    dir: &String,
    depth: usize,
    start: usize,
    end: usize,
    index: &mut usize,
    rows: &mut Vec<FileTreeRow>,
) -> (stopped: bool)
    requires
        walk_terminates(ls@, expanded@),
        depth <= dir@.len(),
        start <= end,
        *old(index) <= end,
    ensures
        ({
            let v = tree_rows(ls@, expanded@, dir@, depth as nat);
            let i0 = *old(index) as int;
            &&& stopped ==> *final(index) == end && i0 + v.len() > end
            &&& !stopped ==> *final(index) == i0 + v.len() && i0 + v.len() <= end
            &&& rows_view(final(rows)@) == rows_view(old(rows)@) + window(v, i0, start as int, end as int)
        }),
    decreases max_dir_len(ls@) - dir@.len(),
{
    let ghost start_rows = rows_view(rows@);
    let ghost i0 = *index as int;
    let ghost v = tree_rows(ls@, expanded@, dir@, depth as nat);
    match find_listing(ls, dir) {
        None => {
            assert(rows_view(rows@) =~= start_rows + window(v, i0, start as int, end as int));
            false
        },
        Some(children) => {
            let mut k: usize = 0;
            while k < children.len()
                invariant
                    0 <= k <= children.len(),
                    listing(ls@, dir@) == Some(children@),
                    walk_terminates(ls@, expanded@),
                    depth <= dir@.len(),
                    start <= end,
                    v == tree_rows(ls@, expanded@, dir@, depth as nat),
                    v == child_rows(ls@, expanded@, dir@, depth as nat, children@, 0),
                    i0 == *old(index),
                    start_rows == rows_view(old(rows)@),
                    ({
                        let rest = child_rows(ls@, expanded@, dir@, depth as nat, children@, k as int);
                        let done = v.take(v.len() - rest.len());
                        &&& v =~= done + rest
                        &&& *index == i0 + done.len()
                        &&& *index <= end
                        &&& rows_view(rows@) == start_rows + window(done, i0, start as int, end as int)
                    }),
                decreases children.len() - k,
            {
                let ghost rest = child_rows(ls@, expanded@, dir@, depth as nat, children@, k as int);
                let ghost done = v.take(v.len() - rest.len());
                proof {
                    lemma_child_rows_step(ls@, expanded@, dir@, depth as nat, children@, k as int);
                }
                if *index >= end {
                    proof {
                        assert(rest.len() >= 1);
                        lemma_window_prefix(v, done.len() as int, i0, start as int, end as int);
                        assert(v.take(done.len() as int) =~= done);
                        assert(*index == end);
                        assert(i0 + v.len() > end);
                        assert(rows_view(rows@) == start_rows + window(v, i0, start as int, end as int));
                    }
                    return true;
                }
                let (row, descend) = make_row(ls, expanded, dir, depth, &children[k]);
                let path = row.path.clone();
                let row_index = *index;
                let ghost rv = seq![entry_row(ls@, expanded@, dir@, depth as nat, children@[k as int])];
                let ghost before = rows_view(rows@);
                if start <= row_index && row_index < end {
                    rows.push(row);
                    assert(rows_view(rows@) =~= before + rv);
                }
                *index = *index + 1;
                proof {
                    lemma_window_concat(done, rv, i0, start as int, end as int);
                    assert(rows_view(rows@) =~= start_rows + window(done + rv, i0, start as int, end as int));
                }
                let ghost sub = if descends(ls@, expanded@, dir@, children@[k as int]) {
                    tree_rows(ls@, expanded@, join_path(dir@, children@[k as int].name@), depth as nat + 1)
                } else {
                    Seq::<RowView>::empty()
                };
                let ghost next_rest = child_rows(ls@, expanded@, dir@, depth as nat, children@, k + 1);
                proof {
                    assert(rest =~= rv + sub + next_rest);
                }
                if descend {
                    proof {
                        lemma_listing_len(ls@, path@);
                        lemma_descend_longer(ls@, expanded@, dir@, children@, k as int);
                    }
                    let n = str_len(path.as_str());
                    proof {
                        lemma_len_le_utf8_len(path@);
                    }
                    let ghost mid = rows_view(rows@);
                    let stop = walk_range(ls, expanded, &path, depth + 1, start, end, index, rows);
                    proof {
                        lemma_window_concat(done + rv, sub, i0, start as int, end as int);
                    }
                    if stop {
                        proof {
                            let full = done + rv + sub;
                            assert(v =~= full + next_rest);
                            lemma_window_prefix(v, full.len() as int, i0, start as int, end as int);
                            assert(v.take(full.len() as int) =~= full);
                            assert(*index == end);
                            assert(i0 + v.len() > end);
                            assert(rows_view(rows@) == start_rows + window(v, i0, start as int, end as int));
                        }
                        return true;
                    }
                } else {
                    assert(sub =~= Seq::<RowView>::empty());
                    assert(done + rv + sub =~= done + rv);
                }
                proof {
                    let full = done + rv + sub;
                    assert(v =~= full + next_rest);
                    assert(v.take(v.len() - next_rest.len()) =~= full);
                }
                k = k + 1;
            }
            proof {
                assert(child_rows(ls@, expanded@, dir@, depth as nat, children@, k as int) =~= Seq::<RowView>::empty());
                assert(v.take(v.len() as int) =~= v);
            }
            false
        },
    }
}

/// The visible file-tree rows with positions in `range`. The walk stops once
/// the end of the range is reached.
pub fn file_tree_rows_in_range(
    entries: &Vec<DirListing>,
    expanded: &Vec<String>,
    range: std::ops::Range<usize>,
) -> (rows: Vec<FileTreeRow>)
    requires
        distinct_dirs(entries@),
        walk_terminates(entries@, expanded@),
    ensures
        ({
            let v = tree_rows(entries@, expanded@, Seq::empty(), 0);
            rows_view(rows@) == if range.start < range.end {
                window(v, 0, range.start as int, range.end as int)
            } else {
                Seq::empty()
            }
        }),
{
    if range.start >= range.end {
        let rows: Vec<FileTreeRow> = Vec::new();
        assert(rows_view(rows@) =~= Seq::<RowView>::empty());
        return rows;
    }
    let mut rows: Vec<FileTreeRow> = Vec::new();
    let mut index: usize = 0;
    let root = String::new();
    assert(root@ =~= Seq::<char>::empty());
    assert(rows_view(rows@) =~= Seq::<RowView>::empty());
    let _ = walk_range(entries, expanded, &root, 0, range.start, range.end, &mut index, &mut rows);
    assert(rows_view(rows@) =~= Seq::<RowView>::empty() + window(tree_rows(entries@, expanded@, Seq::empty(), 0), 0, range.start as int, range.end as int));
    rows
}


/// Visible ranges match the flattened rows: the rows of a range are the
/// flattened rows at those positions (clamped to the tree), none for an
/// empty range.
pub proof fn lemma_range_is_slice(v: Seq<RowView>, start: int, end: int)
    requires
        0 <= start < end,
    ensures
        window(v, 0, start, end) == v.subrange(
            if start < v.len() { start } else { v.len() as int },
            if end < v.len() { end } else { v.len() as int },
        ),
{
}

} // verus!
