//! The lexicographic order of strings (`Ord for str`, which compares UTF-8
//! bytes and so orders by characters), and sorting by it.
use vstd::prelude::*;
use crate::text::chars_of;

verus! {

/// `a < b` in the lexicographic order of characters.
pub open spec fn seq_lt(a: Seq<char>, b: Seq<char>) -> bool
    decreases a.len(),
{
    if a.len() == 0 {
        b.len() > 0
    } else if b.len() == 0 {
        false
    } else if a[0] != b[0] {
        a[0] < b[0]
    } else {
        seq_lt(a.drop_first(), b.drop_first())
    }
}

pub proof fn lemma_seq_lt_irreflexive(a: Seq<char>)
    ensures
        !seq_lt(a, a),
    decreases a.len(),
{
    if a.len() > 0 {
        lemma_seq_lt_irreflexive(a.drop_first());
    }
}

pub proof fn lemma_seq_lt_asymmetric(a: Seq<char>, b: Seq<char>)
    ensures
        seq_lt(a, b) ==> !seq_lt(b, a),
    decreases a.len(),
{
    if a.len() > 0 && b.len() > 0 && a[0] == b[0] {
        lemma_seq_lt_asymmetric(a.drop_first(), b.drop_first());
    }
}

pub proof fn lemma_seq_lt_transitive(a: Seq<char>, b: Seq<char>, c: Seq<char>)
    ensures
        seq_lt(a, b) && seq_lt(b, c) ==> seq_lt(a, c),
    decreases a.len(),
{
    if a.len() > 0 && b.len() > 0 && c.len() > 0 {
        lemma_seq_lt_transitive(a.drop_first(), b.drop_first(), c.drop_first());
    }
}

pub proof fn lemma_seq_lt_total(a: Seq<char>, b: Seq<char>)
    ensures
        a == b || seq_lt(a, b) || seq_lt(b, a),
    decreases a.len(),
{
    if a.len() > 0 && b.len() > 0 && a[0] == b[0] {
        lemma_seq_lt_total(a.drop_first(), b.drop_first());
        if a.drop_first() == b.drop_first() {
            assert(a =~= seq![a[0]] + a.drop_first());
            assert(b =~= seq![b[0]] + b.drop_first());
        }
    } else if a.len() == 0 && b.len() == 0 {
        assert(a =~= b);
    }
}

/// `a < b` for strings (`str::lt`).
pub fn str_lt(a: &str, b: &str) -> (r: bool)
    ensures
        r == seq_lt(a@, b@),
{
    let av = chars_of(a);
    let bv = chars_of(b);
    assert(a@.skip(0) =~= a@);
    assert(b@.skip(0) =~= b@);
    let mut i: usize = 0;
    while i < av.len() && i < bv.len()
        invariant
            av@ == a@,
            bv@ == b@,
            0 <= i <= av.len(),
            i <= bv.len(),
            seq_lt(a@, b@) == seq_lt(a@.skip(i as int), b@.skip(i as int)),
        decreases av.len() - i,
    {
        assert(a@.skip(i as int)[0] == av@[i as int]);
        assert(b@.skip(i as int)[0] == bv@[i as int]);
        if av[i] != bv[i] {
            return av[i] < bv[i];
        }
        assert(a@.skip(i as int).drop_first() =~= a@.skip(i + 1));
        assert(b@.skip(i as int).drop_first() =~= b@.skip(i + 1));
        i = i + 1;
    }
    i == av.len() && i < bv.len()
}

/// The views of a vector of strings.
pub open spec fn string_views(v: Seq<String>) -> Seq<Seq<char>> {
    v.map_values(|s: String| s@)
}

/// No string of `s` is smaller than one before it.
pub open spec fn sorted_strings(s: Seq<Seq<char>>) -> bool {
    forall|i: int, j: int| 0 <= i < j < s.len() ==> !seq_lt(#[trigger] s[j], #[trigger] s[i])
}

/// Sorts strings in ascending order (`sort` on a vector of strings): the
/// result holds the same strings, in order.
pub fn sort_strings(v: Vec<String>) -> (r: Vec<String>)
    ensures
        sorted_strings(string_views(r@)),
        string_views(r@).to_multiset() == string_views(v@).to_multiset(),
{
    let mut r: Vec<String> = Vec::new();
    let mut k: usize = 0;
    assert(string_views(r@) =~= string_views(v@).take(0));
    while k < v.len()
        invariant
            0 <= k <= v.len(),
            sorted_strings(string_views(r@)),
            string_views(r@).to_multiset() == string_views(v@).take(k as int).to_multiset(),
        decreases v.len() - k,
    {
        let x = v[k].clone();
        let mut p: usize = 0;
        while p < r.len() && !str_lt(x.as_str(), r[p].as_str())
            invariant
                0 <= p <= r.len(),
                forall|i: int| 0 <= i < p ==> !seq_lt(x@, #[trigger] string_views(r@)[i]),
            decreases r.len() - p,
        {
            p = p + 1;
        }
        let ghost old_v = string_views(r@);
        proof {
            assert forall|j: int| p <= j < old_v.len() implies !seq_lt(#[trigger] old_v[j], x@) by {
                assert(seq_lt(x@, old_v[p as int]));
                if j > p {
                    assert(!seq_lt(old_v[j], old_v[p as int]));
                }
                lemma_seq_lt_transitive(old_v[j], x@, old_v[p as int]);
                lemma_seq_lt_irreflexive(old_v[p as int]);
                lemma_seq_lt_transitive(old_v[j], old_v[p as int], x@);
                lemma_seq_lt_asymmetric(x@, old_v[p as int]);
            }
        }
        r.insert(p, x);
        let ghost new_v = string_views(r@);
        proof {
            assert(new_v =~= old_v.insert(p as int, x@));
            vstd::seq_lib::to_multiset_insert(old_v, p as int, x@);
            assert(string_views(v@).take(k + 1) =~= string_views(v@).take(k as int).push(x@));
            vstd::seq_lib::to_multiset_build(string_views(v@).take(k as int), x@);
            assert forall|i: int, j: int| 0 <= i < j < new_v.len() implies !seq_lt(
                #[trigger] new_v[j],
                #[trigger] new_v[i],
            ) by {
                if j < p {
                    assert(new_v[i] == old_v[i] && new_v[j] == old_v[j]);
                } else if j == p {
                    assert(new_v[i] == old_v[i]);
                } else if i == p {
                    assert(new_v[j] == old_v[j - 1]);
                } else if i < p {
                    assert(new_v[i] == old_v[i] && new_v[j] == old_v[j - 1]);
                    if seq_lt(old_v[j - 1], old_v[i]) {
                    }
                } else {
                    assert(new_v[i] == old_v[i - 1] && new_v[j] == old_v[j - 1]);
                }
            }
        }
        k = k + 1;
    }
    assert(string_views(v@).take(k as int) =~= string_views(v@));
    r
}

} // verus!
