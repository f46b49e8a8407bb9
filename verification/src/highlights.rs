//! How a rendered markdown text is cut into styled runs: the text is split
//! at every edge of an inline highlight and of the selection, and a run is
//! kept when it is styled or selected.
use vstd::prelude::*;
use crate::markdown::{InlineHighlight, InlineStyle};

verus! {

/// A run of an inline text: its byte range, the style of the first
/// highlight that covers its start, and whether the selection overlaps it.
#[derive(Clone, Debug, PartialEq, Eq)]
pub struct InlineSegment {
    pub range: std::ops::Range<usize>,
    pub style: Option<InlineStyle>,
    pub selected: bool,
}

/// The offsets at which the text is cut: its two ends, the edges of every
/// highlight and of the selection.
pub open spec fn cut_points(text_len: usize, hs: Seq<InlineHighlight>, selection: Option<std::ops::Range<usize>>) -> Set<
    usize,
> {
    Set::new(
        |x: usize|
            x == 0 || x == text_len || (exists|i: int|
                #![trigger hs[i]]
                0 <= i < hs.len() && (hs[i].range.start == x || hs[i].range.end == x)) || match selection {
                Some(r) => r.start == x || r.end == x,
                None => false,
            },
    )
}

/// Strictly ascending offsets.
pub open spec fn ascending(s: Seq<usize>) -> bool {
    forall|i: int, j: int| 0 <= i < j < s.len() ==> s[i] < s[j]
}

/// The style of the first highlight whose range holds `x`.
pub open spec fn style_at(hs: Seq<InlineHighlight>, x: int) -> Option<InlineStyle>
    decreases hs.len(),
{
    if hs.len() == 0 {
        None
    } else if hs[0].range.start <= x < hs[0].range.end {
        Some(hs[0].style)
    } else {
        style_at(hs.drop_first(), x)
    }
}

/// Whether the selection overlaps `[a, b)`.
pub open spec fn overlaps(selection: Option<std::ops::Range<usize>>, a: int, b: int) -> bool {
    match selection {
        Some(r) => r.start < b && a < r.end,
        None => false,
    }
}

/// The runs between consecutive cut points among the first `n + 1` of
/// `cuts`, kept when styled or selected.
pub open spec fn runs(
    cuts: Seq<usize>,
    hs: Seq<InlineHighlight>,
    selection: Option<std::ops::Range<usize>>,
    n: int,
) -> Seq<InlineSegment>
    decreases n,
{
    if n <= 0 {
        Seq::empty()
    } else {
        let a = cuts[n - 1];
        let b = cuts[n];
        let style = style_at(hs, a as int);
        let selected = overlaps(selection, a as int, b as int);
        let before = runs(cuts, hs, selection, n - 1);
        if style is Some || selected {
            before.push(InlineSegment { range: a..b, style, selected })
        } else {
            before
        }
    }
}

/// Two strictly ascending sequences with the same elements are equal.
pub proof fn lemma_ascending_unique(a: Seq<usize>, b: Seq<usize>)
    requires
        ascending(a),
        ascending(b),
        forall|x: usize| a.contains(x) <==> b.contains(x),
    ensures
        a == b,
    decreases a.len() + b.len(),
{
    if a.len() == 0 || b.len() == 0 {
        if a.len() > 0 {
            assert(a.contains(a[0]));
        }
        if b.len() > 0 {
            assert(b.contains(b[0]));
        }
        assert(a =~= b);
    } else {
        let la = a.last();
        let lb = b.last();
        assert(a.contains(la));
        assert(b.contains(lb));
        let ia = choose|i: int| 0 <= i < a.len() && a[i] == lb;
        let ib = choose|i: int| 0 <= i < b.len() && b[i] == la;
        assert(la == lb) by {
            if la < lb {
                assert(a[ia] <= la);
            } else if lb < la {
                assert(b[ib] <= lb);
            }
        }
        assert forall|x: usize| a.drop_last().contains(x) <==> b.drop_last().contains(x) by {
            if a.drop_last().contains(x) {
                let i = choose|i: int| 0 <= i < a.drop_last().len() && a.drop_last()[i] == x;
                assert(a[i] < la);
                assert(b.contains(x));
                let j = choose|j: int| 0 <= j < b.len() && b[j] == x;
                assert(j != b.len() - 1);
                assert(b.drop_last()[j] == x);
            }
            if b.drop_last().contains(x) {
                let i = choose|i: int| 0 <= i < b.drop_last().len() && b.drop_last()[i] == x;
                assert(b[i] < lb);
                assert(a.contains(x));
                let j = choose|j: int| 0 <= j < a.len() && a[j] == x;
                assert(j != a.len() - 1);
                assert(a.drop_last()[j] == x);
            }
        }
        lemma_ascending_unique(a.drop_last(), b.drop_last());
        assert(a =~= a.drop_last().push(la));
        assert(b =~= b.drop_last().push(lb));
    }
}

/// Adds `x` to strictly ascending offsets, unless it is there.
fn insert_cut(v: &mut Vec<usize>, x: usize)
    requires
        ascending(old(v)@),
    ensures
        ascending(final(v)@),
        forall|y: usize| final(v)@.contains(y) <==> (old(v)@.contains(y) || y == x),
{
    let mut i: usize = 0;
    while i < v.len() && v[i] < x
        invariant
            v@ == old(v)@,
            ascending(v@),
            0 <= i <= v@.len(),
            forall|j: int| 0 <= j < i ==> v@[j] < x,
        decreases v@.len() - i,
    {
        i = i + 1;
    }
    if i < v.len() && v[i] == x {
        return;
    }
    let ghost before = v@;
    v.insert(i, x);
    proof {
        assert forall|y: usize| v@.contains(y) <==> (before.contains(y) || y == x) by {
            if v@.contains(y) {
                let k = choose|k: int| 0 <= k < v@.len() && v@[k] == y;
                if k < i {
                    assert(before[k] == y);
                } else if k > i {
                    assert(before[k - 1] == y);
                }
            }
            if before.contains(y) {
                let k = choose|k: int| 0 <= k < before.len() && before[k] == y;
                if k < i {
                    assert(v@[k] == y);
                } else {
                    assert(v@[k + 1] == y);
                }
            }
            if y == x {
                assert(v@[i as int] == y);
            }
        }
        assert(before == old(v)@);
        assert(forall|y: usize| v@.contains(y) <==> (old(v)@.contains(y) || y == x));
    }
}

/// The style of the first highlight that holds `x`.
fn style_of(highlights: &Vec<InlineHighlight>, x: usize) -> (r: Option<InlineStyle>)
    ensures
        r == style_at(highlights@, x as int),
{
    let mut i: usize = 0;
    assert(highlights@.skip(0) =~= highlights@);
    while i < highlights.len()
        invariant
            0 <= i <= highlights@.len(),
            style_at(highlights@, x as int) == style_at(highlights@.skip(i as int), x as int),
        decreases highlights@.len() - i,
    {
        assert(highlights@.skip(i as int).drop_first() =~= highlights@.skip(i + 1));
        assert(highlights@.skip(i as int)[0] == highlights@[i as int]);
        if highlights[i].range.start <= x && x < highlights[i].range.end {
            return Some(highlights[i].style);
        }
        i = i + 1;
    }
    None
}

/// Cuts a text of `text_len` bytes into the runs that are styled or
/// selected (see `runs`), between consecutive cut points (see
/// `cut_points`) taken in ascending order.
pub fn inline_segments(
    text_len: usize,
    highlights: &Vec<InlineHighlight>,
    selection: &Option<std::ops::Range<usize>>,
) -> (r: Vec<InlineSegment>)
    ensures
        exists|cuts: Seq<usize>|
            {
                &&& ascending(cuts)
                &&& cuts.len() >= 1
                &&& forall|x: usize| cuts.contains(x) <==> cut_points(text_len, highlights@, *selection).contains(x)
                &&& r@ == runs(cuts, highlights@, *selection, cuts.len() - 1)
            },
{
    let mut cuts: Vec<usize> = Vec::new();
    insert_cut(&mut cuts, 0);
    insert_cut(&mut cuts, text_len);
    let mut i: usize = 0;
    while i < highlights.len()
        invariant
            0 <= i <= highlights@.len(),
            ascending(cuts@),
            forall|y: usize|
                cuts@.contains(y) <==> (y == 0 || y == text_len || exists|j: int|
                    #![trigger highlights@[j]]
                    0 <= j < i && (highlights@[j].range.start == y || highlights@[j].range.end == y)),
        decreases highlights@.len() - i,
    {
        let ghost before = cuts@;
        insert_cut(&mut cuts, highlights[i].range.start);
        insert_cut(&mut cuts, highlights[i].range.end);
        proof {
            assert forall|y: usize|
                cuts@.contains(y) <==> (y == 0 || y == text_len || exists|j: int|
                    #![trigger highlights@[j]]
                    0 <= j < i + 1 && (highlights@[j].range.start == y || highlights@[j].range.end == y)) by {
                if exists|j: int|
                    #![trigger highlights@[j]]
                    0 <= j < i + 1 && (highlights@[j].range.start == y || highlights@[j].range.end == y) {
                    let j = choose|j: int|
                        #![trigger highlights@[j]]
                        0 <= j < i + 1 && (highlights@[j].range.start == y || highlights@[j].range.end == y);
                    if j < i {
                        assert(before.contains(y));
                    }
                }
            }
        }
        i = i + 1;
    }
    if let Some(range) = selection {
        insert_cut(&mut cuts, range.start);
        insert_cut(&mut cuts, range.end);
    }
    proof {
        assert(cuts@.contains(0usize));
        assert forall|x: usize| cuts@.contains(x) <==> cut_points(text_len, highlights@, *selection).contains(x) by {
        }
    }
    let mut out: Vec<InlineSegment> = Vec::new();
    let mut k: usize = 1;
    while k < cuts.len()
        invariant
            1 <= k <= cuts@.len(),
            out@ == runs(cuts@, highlights@, *selection, k - 1),
        decreases cuts@.len() - k,
    {
        let a = cuts[k - 1];
        let b = cuts[k];
        let style = style_of(highlights, a);
        let selected = match selection {
            Some(range) => range.start < b && a < range.end,
            None => false,
        };
        if style.is_some() || selected {
            out.push(InlineSegment { range: a..b, style, selected });
        }
        k = k + 1;
    }
    out
}

} // verus!
