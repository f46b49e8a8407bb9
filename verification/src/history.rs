//! The composer's prompt history for Up/Down recall. Entries are oldest to
//! newest; consecutive duplicates are collapsed, and recall stashes the
//! text being written so that moving down past the newest entry restores it.
use vstd::prelude::*;
use crate::text::{chars_of, is_trimmed, trim, trimmed};

verus! {

/// Most entries the history keeps.
pub const PROMPT_HISTORY_LIMIT: usize = 100;

#[derive(Clone, Debug)]
pub struct PromptHistory {
    entries: Vec<String>,
    recall_index: Option<usize>,
    stash: String,
}

/// Mathematical form of a [`PromptHistory`].
pub struct HistoryView {
    pub entries: Seq<Seq<char>>,
    pub recall: Option<usize>,
    pub stash: Seq<char>,
}

impl View for PromptHistory {
    type V = HistoryView;

    closed spec fn view(&self) -> HistoryView {
        HistoryView {
            entries: self.entries@.map_values(|s: String| s@),
            recall: self.recall_index,
            stash: self.stash@,
        }
    }
}

/// The last `n` elements of `s` (all of them if it has fewer).
pub open spec fn keep_last(s: Seq<Seq<char>>, n: int) -> Seq<Seq<char>> {
    if s.len() > n {
        s.skip(s.len() - n)
    } else {
        s
    }
}

/// Recall is reset: no entry is recalled and the stash is empty.
pub open spec fn reset(h: HistoryView) -> HistoryView {
    HistoryView { recall: None, stash: Seq::empty(), ..h }
}

/// The history after a prompt is submitted: recall is reset; a blank
/// prompt or a repeat of the newest entry adds nothing; otherwise the
/// trimmed prompt is added and only the newest `PROMPT_HISTORY_LIMIT`
/// entries are kept.
pub open spec fn recorded(h: HistoryView, text: Seq<char>) -> HistoryView {
    let t = trim(text);
    if t.len() == 0 || (h.entries.len() > 0 && h.entries.last() == t) {
        reset(h)
    } else {
        HistoryView { entries: keep_last(h.entries.push(t), PROMPT_HISTORY_LIMIT as int), ..reset(h) }
    }
}

/// Moving to an older entry: the history afterwards and the entry shown.
/// The first step stashes the current text and shows the newest entry;
/// later steps move one entry older, stopping at the oldest.
pub open spec fn recalled_older(h: HistoryView, current: Seq<char>) -> (HistoryView, Option<Seq<char>>) {
    if h.entries.len() == 0 {
        (h, None)
    } else {
        let (index, stash) = match h.recall {
            None => ((h.entries.len() - 1) as int, current),
            Some(i) => (if i == 0 { 0int } else { i - 1 }, h.stash),
        };
        (
            HistoryView { recall: Some(index as usize), stash: stash, ..h },
            if index < h.entries.len() {
                Some(h.entries[index])
            } else {
                None
            },
        )
    }
}

/// Moving to a newer entry: the history afterwards and the text shown.
/// Past the newest entry, recall ends and the stashed text comes back.
pub open spec fn recalled_newer(h: HistoryView) -> (HistoryView, Option<Seq<char>>) {
    match h.recall {
        None => (h, None),
        Some(i) => if i + 1 < h.entries.len() {
            (HistoryView { recall: Some((i + 1) as usize), ..h }, Some(h.entries[i + 1]))
        } else {
            (reset(h), Some(h.stash))
        },
    }
}

/// What every history built by these operations satisfies: at most
/// `PROMPT_HISTORY_LIMIT` non-blank entries, each already trimmed, no entry
/// equal to the one before it, a recalled index inside the entries and an empty stash when
/// nothing is recalled.
pub open spec fn history_wf(h: HistoryView) -> bool {
    &&& h.entries.len() <= PROMPT_HISTORY_LIMIT
    &&& forall|i: int| 0 <= i < h.entries.len() ==> (#[trigger] h.entries[i]).len() > 0
    &&& forall|i: int| 0 <= i < h.entries.len() ==> is_trimmed(#[trigger] h.entries[i])
    &&& forall|i: int| 0 < i < h.entries.len() ==> #[trigger] h.entries[i] != h.entries[i - 1]
    &&& match h.recall {
        Some(i) => i < h.entries.len(),
        None => h.stash.len() == 0,
    }
}

impl PromptHistory {
    /// An empty history.
    pub fn new() -> (h: PromptHistory)
        ensures
            h@ == (HistoryView { entries: Seq::empty(), recall: None, stash: Seq::empty() }),
    {
        let h = PromptHistory { entries: Vec::new(), recall_index: None, stash: String::new() };
        assert(h@.entries =~= Seq::<Seq<char>>::empty());
        h
    }

    /// Records a submitted prompt (see `recorded`).
    pub fn record(&mut self, text: &str)
        ensures
            final(self)@ == recorded(old(self)@, text@),
    {
        let ghost h = self@;
        let t = trimmed(text);
        self.reset_recall();
        let tv = chars_of(t.as_str());
        if tv.len() == 0 {
            return;
        }
        let n = self.entries.len();
        if n > 0 && self.entries[n - 1] == t {
            return;
        }
        let ghost pushed = h.entries.push(t@);
        self.entries.push(t);
        assert(self.entries@.map_values(|s: String| s@) =~= pushed);
        let ghost mut dropped: int = 0;
        assert(pushed.skip(0) =~= pushed);
        while self.entries.len() > PROMPT_HISTORY_LIMIT
            invariant
                self.entries@.map_values(|s: String| s@) == pushed.skip(dropped),
                0 <= dropped <= pushed.len(),
                dropped == 0 || pushed.len() - dropped >= PROMPT_HISTORY_LIMIT,
                self.entries@.len() == pushed.len() - dropped,
                self.recall_index is None,
                self.stash@ == Seq::<char>::empty(),
            decreases self.entries@.len(),
        {
            let ghost before = self.entries@;
            let ghost bm = before.map_values(|s: String| s@);
            self.entries.remove(0);
            proof {
                assert(self.entries@ =~= before.drop_first());
                assert(self.entries@.map_values(|s: String| s@) =~= bm.drop_first());
                assert(bm.drop_first() =~= pushed.skip(dropped + 1));
                dropped = dropped + 1;
            }
        }
        assert(self.entries@.map_values(|s: String| s@) =~= keep_last(pushed, PROMPT_HISTORY_LIMIT as int));
    }

    /// Ends recall and clears the stash.
    pub fn reset_recall(&mut self)
        ensures
            final(self)@ == reset(old(self)@),
    {
        self.recall_index = None;
        self.stash = String::new();
    }

    pub fn is_recalling(&self) -> (b: bool)
        ensures
            b == (self@.recall is Some),
    {
        self.recall_index.is_some()
    }

    /// Shows an older entry (see `recalled_older`).
    pub fn recall_older(&mut self, current: &str) -> (r: Option<String>)
        ensures
            final(self)@ == recalled_older(old(self)@, current@).0,
            match r {
                Some(s) => recalled_older(old(self)@, current@).1 == Some(s@),
                None => recalled_older(old(self)@, current@).1 is None,
            },
    {
        if self.entries.len() == 0 {
            return None;
        }
        let index = match self.recall_index {
            None => {
                self.stash = current.to_owned();
                self.entries.len() - 1
            },
            Some(index) => if index == 0 {
                0
            } else {
                index - 1
            },
        };
        self.recall_index = Some(index);
        if index < self.entries.len() {
            Some(self.entries[index].clone())
        } else {
            None
        }
    }

    /// Shows a newer entry, or the stashed text past the newest one (see
    /// `recalled_newer`).
    pub fn recall_newer(&mut self) -> (r: Option<String>)
        ensures
            final(self)@ == recalled_newer(old(self)@).0,
            match r {
                Some(s) => recalled_newer(old(self)@).1 == Some(s@),
                None => recalled_newer(old(self)@).1 is None,
            },
    {
        let index = match self.recall_index {
            Some(i) => i,
            None => return None,
        };
        if index < self.entries.len() && index + 1 < self.entries.len() {
            self.recall_index = Some(index + 1);
            Some(self.entries[index + 1].clone())
        } else {
            self.recall_index = None;
            let mut taken = String::new();
            std::mem::swap(&mut taken, &mut self.stash);
            Some(taken)
        }
    }
}

impl Default for PromptHistory {
    fn default() -> (h: PromptHistory)
        ensures
            h@ == (HistoryView { entries: Seq::empty(), recall: None, stash: Seq::empty() }),
    {
        PromptHistory::new()
    }
}

/// Recording keeps a history well formed; in particular every entry stays
/// trimmed.
pub proof fn lemma_record_keeps_wf(h: HistoryView, text: Seq<char>)
    requires
        history_wf(h),
    ensures
        history_wf(recorded(h, text)),
{
    let t = trim(text);
    if !(t.len() == 0 || (h.entries.len() > 0 && h.entries.last() == t)) {
        crate::text::lemma_trim_idempotent(text);
        let pushed = h.entries.push(t);
        let kept = keep_last(pushed, PROMPT_HISTORY_LIMIT as int);
        let d = pushed.len() - kept.len();
        assert forall|i: int| 0 <= i < kept.len() implies #[trigger] kept[i] == pushed[i + d] by {}
        assert forall|i: int| 0 < i < kept.len() implies #[trigger] kept[i] != kept[i - 1] by {
            assert(kept[i] == pushed[i + d] && kept[i - 1] == pushed[i - 1 + d]);
        }
        assert forall|i: int| 0 <= i < kept.len() implies (#[trigger] kept[i]).len() > 0 by {
            assert(kept[i] == pushed[i + d]);
        }
        assert forall|i: int| 0 <= i < kept.len() implies is_trimmed(#[trigger] kept[i]) by {
            assert(kept[i] == pushed[i + d]);
            if i + d < h.entries.len() {
                assert(pushed[i + d] == h.entries[i + d]);
            }
        }
    }
}

/// Moving older keeps a history well formed.
pub proof fn lemma_older_keeps_wf(h: HistoryView, current: Seq<char>)
    requires
        history_wf(h),
    ensures
        history_wf(recalled_older(h, current).0),
{
}

/// Moving newer keeps a history well formed.
pub proof fn lemma_newer_keeps_wf(h: HistoryView)
    requires
        history_wf(h),
    ensures
        history_wf(recalled_newer(h).0),
{
}

/// Recall round trip: moving older from a history that is not recalling
/// and then newer again gives back the text that was being written, and
/// ends recall; with a single entry that entry is what moving older shows.
pub proof fn lemma_recall_round_trip(h: HistoryView, current: Seq<char>)
    requires
        history_wf(h),
        h.recall is None,
        h.entries.len() > 0,
    ensures
        recalled_older(h, current).1 == Some(h.entries.last()),
        recalled_newer(recalled_older(h, current).0).1 == Some(current),
        recalled_newer(recalled_older(h, current).0).0.recall is None,
        recalled_newer(recalled_older(h, current).0).0.entries == h.entries,
{
}

/// Moving older `k + 1` times from a history that is not recalling shows
/// the entry `k` places before the newest one, stopping at the oldest.
pub open spec fn older_times(h: HistoryView, n: nat) -> (HistoryView, Option<Seq<char>>)
    decreases n,
{
    if n <= 1 {
        recalled_older(h, Seq::empty())
    } else {
        recalled_older(older_times(h, (n - 1) as nat).0, Seq::empty())
    }
}

pub proof fn lemma_older_times(h: HistoryView, n: nat)
    requires
        history_wf(h),
        h.recall is None,
        h.entries.len() > 0,
        n >= 1,
    ensures
        older_times(h, n).0.recall == Some(
            (if n <= h.entries.len() { h.entries.len() - n } else { 0int }) as usize,
        ),
        older_times(h, n).0.entries == h.entries,
        older_times(h, n).1 == Some(
            h.entries[if n <= h.entries.len() { h.entries.len() - n } else { 0int }],
        ),
    decreases n,
{
    if n > 1 {
        lemma_older_times(h, (n - 1) as nat);
    }
}

/// Moving newer steps one entry towards the newest: from a recalled entry
/// that is not the newest, it recalls and shows the next entry, and it
/// undoes a step older: moving older from a recalled entry that is not the
/// oldest and then newer again recalls and shows that same entry.
pub proof fn lemma_newer_steps_one(h: HistoryView, i: usize, current: Seq<char>)
    requires
        history_wf(h),
        h.recall == Some(i),
    ensures
        i + 1 < h.entries.len() ==> recalled_newer(h).0.recall == Some((i + 1) as usize) && recalled_newer(h).1
            == Some(h.entries[i + 1]) && recalled_newer(h).0.entries == h.entries,
        i > 0 ==> recalled_newer(recalled_older(h, current).0).0.recall == Some(i) && recalled_newer(
            recalled_older(h, current).0,
        ).1 == Some(h.entries[i as int]),
{
}

/// Recording a prompt makes its trimmed text the newest entry (unless it is
/// blank), keeps the earlier entries in order behind it (the oldest dropped
/// beyond `PROMPT_HISTORY_LIMIT`), and ends recall.
pub proof fn lemma_record_newest(h: HistoryView, text: Seq<char>)
    requires
        history_wf(h),
    ensures
        recorded(h, text).recall is None,
        recorded(h, text).stash.len() == 0,
        trim(text).len() == 0 ==> recorded(h, text).entries == h.entries,
        trim(text).len() > 0 ==> recorded(h, text).entries.len() > 0 && recorded(h, text).entries.last() == trim(
            text,
        ),
        trim(text).len() > 0 ==> ({
            let e = recorded(h, text).entries;
            let kept = e.len() - 1;
            &&& kept <= h.entries.len()
            &&& e.take(kept) == h.entries.skip(h.entries.len() - kept)
        }) || recorded(h, text).entries == h.entries,
{
    let t = trim(text);
    if !(t.len() == 0 || (h.entries.len() > 0 && h.entries.last() == t)) {
        let pushed = h.entries.push(t);
        let e = keep_last(pushed, PROMPT_HISTORY_LIMIT as int);
        assert(e.last() == t);
        let kept = e.len() - 1;
        assert(e.take(kept) =~= h.entries.skip(h.entries.len() - kept));
    }
}

} // verus!
