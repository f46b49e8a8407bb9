//! What the workbench panel says: the totals and labels of the changes
//! section and the activity section.
use vstd::prelude::*;
use crate::text::{decimal, decimal_string, push_str};

verus! {

/// Lines added and removed in one changed file.
#[derive(Clone, Copy, Debug, PartialEq, Eq)]
pub struct DiffStat {
    pub added: u64,
    pub removed: u64,
}

/// The sum of the added lines of the first `n` diffs.
pub open spec fn added_total(diffs: Seq<DiffStat>, n: int) -> int
    decreases n,
{
    if n <= 0 {
        0
    } else {
        added_total(diffs, n - 1) + diffs[n - 1].added
    }
}

/// The sum of the removed lines of the first `n` diffs.
pub open spec fn removed_total(diffs: Seq<DiffStat>, n: int) -> int
    decreases n,
{
    if n <= 0 {
        0
    } else {
        removed_total(diffs, n - 1) + diffs[n - 1].removed
    }
}

proof fn lemma_totals_grow(diffs: Seq<DiffStat>, i: int, j: int)
    requires
        0 <= i <= j <= diffs.len(),
    ensures
        added_total(diffs, i) <= added_total(diffs, j),
        removed_total(diffs, i) <= removed_total(diffs, j),
    decreases j - i,
{
    if i < j {
        lemma_totals_grow(diffs, i, j - 1);
    }
}

/// The changes section's file count and line totals: those of the loaded
/// diffs, or, before any is loaded, those the daemon reported.
pub fn change_totals(
    reported_files: usize,
    reported_added: u64,
    reported_removed: u64,
    diffs: &Vec<DiffStat>,
) -> (r: (usize, u64, u64))
    requires
        added_total(diffs@, diffs@.len() as int) <= u64::MAX,
        removed_total(diffs@, diffs@.len() as int) <= u64::MAX,
    ensures
        diffs@.len() == 0 ==> r == (reported_files, reported_added, reported_removed),
        diffs@.len() > 0 ==> r.0 == diffs@.len() && r.1 == added_total(diffs@, diffs@.len() as int) && r.2
            == removed_total(diffs@, diffs@.len() as int),
{
    if diffs.len() == 0 {
        return (reported_files, reported_added, reported_removed);
    }
    let mut added: u64 = 0;
    let mut removed: u64 = 0;
    let mut i: usize = 0;
    while i < diffs.len()
        invariant
            0 <= i <= diffs@.len(),
            added == added_total(diffs@, i as int),
            removed == removed_total(diffs@, i as int),
            added_total(diffs@, diffs@.len() as int) <= u64::MAX,
            removed_total(diffs@, diffs@.len() as int) <= u64::MAX,
        decreases diffs@.len() - i,
    {
        proof {
            lemma_totals_grow(diffs@, i + 1, diffs@.len() as int);
        }
        added = added + diffs[i].added;
        removed = removed + diffs[i].removed;
        i = i + 1;
    }
    (diffs.len(), added, removed)
}

/// The changes section's heading: `Changes`, with the file count once
/// there are changed files.
pub fn change_label(file_count: usize) -> (r: String)
    ensures
        r@ == (if file_count == 0 {
            "Changes"@
        } else {
            "Changes · "@ + decimal(file_count as nat) + " files"@
        }),
{
    if file_count == 0 {
        return "Changes".to_owned();
    }
    let mut label = "Changes · ".to_owned();
    push_str(&mut label, decimal_string(file_count as u64).as_str());
    push_str(&mut label, " files");
    label
}

/// What the changes section says when it lists no file, and the detail
/// under it (the load error, if there is one).
pub fn changes_message(loading: bool, error: Option<&str>) -> (r: (&'static str, String))
    ensures
        r.0@ == (if loading {
            "Loading workspace changes…"@
        } else if error is Some {
            "Could not load workspace changes"@
        } else {
            "No workspace changes yet"@
        }),
        r.1@ == (match error {
            Some(e) => e@,
            None => "Changed files will appear here during a run."@,
        }),
{
    let message = if loading {
        "Loading workspace changes…"
    } else if error.is_some() {
        "Could not load workspace changes"
    } else {
        "No workspace changes yet"
    };
    let detail = match error {
        Some(e) => e.to_owned(),
        None => "Changed files will appear here during a run.".to_owned(),
    };
    (message, detail)
}

/// The activity section's heading: a request for input first, then the
/// subagents, then the todos done, then whether a turn runs.
pub open spec fn activity_heading(
    needs_input: bool,
    subagents: nat,
    todo_done: nat,
    todo_total: nat,
    running: bool,
) -> Seq<char> {
    if needs_input {
        "Needs input"@
    } else if subagents > 0 {
        decimal(subagents) + " subagent"@ + (if subagents == 1 { Seq::<char>::empty() } else { "s"@ })
    } else if todo_total > 0 {
        decimal(todo_done) + "/"@ + decimal(todo_total) + " todos"@
    } else if running {
        "Working"@
    } else {
        "No active tasks"@
    }
}

/// The activity section's heading (see `activity_heading`) and the
/// sentence under it.
pub fn activity_label(
    needs_input: bool,
    subagents: usize,
    todo_done: usize,
    todo_total: usize,
    running: bool,
) -> (r: (String, &'static str))
    ensures
        r.0@ == activity_heading(needs_input, subagents as nat, todo_done as nat, todo_total as nat, running),
        r.1@ == (if needs_input {
            "The session is waiting for a response."@
        } else if running {
            "The session is processing a turn."@
        } else {
            "Activity will appear while a turn is running."@
        }),
{
    let heading = if needs_input {
        "Needs input".to_owned()
    } else if subagents > 0 {
        let mut s = decimal_string(subagents as u64);
        push_str(&mut s, " subagent");
        if subagents != 1 {
            push_str(&mut s, "s");
        } else {
            proof {
                assert(s@ + Seq::<char>::empty() =~= s@);
            }
        }
        s
    } else if todo_total > 0 {
        let mut s = decimal_string(todo_done as u64);
        push_str(&mut s, "/");
        push_str(&mut s, decimal_string(todo_total as u64).as_str());
        push_str(&mut s, " todos");
        s
    } else if running {
        "Working".to_owned()
    } else {
        "No active tasks".to_owned()
    };
    let detail = if needs_input {
        "The session is waiting for a response."
    } else if running {
        "The session is processing a turn."
    } else {
        "Activity will appear while a turn is running."
    };
    (heading, detail)
}

} // verus!
