//! Sorting integers.

use vstd::prelude::*;
use vstd::multiset::Multiset;
use vstd::relations::sorted_by;

verus! {

/// The order of integers.
pub open spec fn at_most() -> spec_fn(i64, i64) -> bool {
    |a: i64, b: i64| a <= b
}

/// The numbers of `s` in ascending order.
pub open spec fn ascending(s: Seq<i64>) -> Seq<i64> {
    s.sort_by(at_most())
}

/// Ascending order is ascending, and holds the same numbers as often.
pub proof fn lemma_ascending(s: Seq<i64>)
    ensures
        ascending(s).len() == s.len(),
        ascending(s).to_multiset() == s.to_multiset(),
        forall|i: int, j: int|
            0 <= i < j < s.len() ==> #[trigger] ascending(s)[i] <= #[trigger] ascending(s)[j],
        forall|i: int|
            0 <= i < s.len() ==> s.contains(#[trigger] ascending(s)[i]),
{
    broadcast use vstd::seq_lib::group_to_multiset_ensures;

    s.lemma_sort_by_ensures(at_most());
    let t = ascending(s);
    assert(t.to_multiset().len() == t.len() && s.to_multiset().len() == s.len());
    assert forall|i: int, j: int| 0 <= i < j < s.len() implies #[trigger] t[i]
        <= #[trigger] t[j] by {
        assert(at_most()(t[i], t[j]));
    }
    assert forall|i: int| 0 <= i < s.len() implies s.contains(#[trigger] t[i]) by {
        assert(t.contains(t[i]));
    }
}

proof fn lemma_is_ascending(s: Seq<i64>, t: Seq<i64>)
    requires
        sorted_by(t, at_most()),
        t.to_multiset() == s.to_multiset(),
    ensures
        t == ascending(s),
{
    s.lemma_sort_by_ensures(at_most());
    vstd::seq_lib::lemma_sorted_unique(t, ascending(s), at_most());
}

proof fn lemma_multiset_concat(a: Seq<i64>, b: Seq<i64>)
    ensures
        (a + b).to_multiset() == a.to_multiset().add(b.to_multiset()),
    decreases b.len(),
{
    broadcast use vstd::seq_lib::group_to_multiset_ensures;
    broadcast use vstd::multiset::group_multiset_axioms;

    if b.len() == 0 {
        assert(a + b =~= a);
        assert(b.to_multiset() =~= Multiset::empty());
        assert(a.to_multiset().add(b.to_multiset()) =~= a.to_multiset());
    } else {
        lemma_multiset_concat(a, b.drop_last());
        assert(a + b =~= (a + b.drop_last()).push(b.last()));
        assert(b =~= b.drop_last().push(b.last()));
        assert((a + b).to_multiset() =~= a.to_multiset().add(b.to_multiset()));
    }
}

proof fn lemma_multiset_push(whole: Seq<i64>, a: Seq<i64>, b: Seq<i64>, x: i64)
    requires
        whole.to_multiset() == a.to_multiset().add(b.to_multiset()),
    ensures
        whole.push(x).to_multiset() == a.push(x).to_multiset().add(b.to_multiset()),
        whole.push(x).to_multiset() == a.to_multiset().add(b.push(x).to_multiset()),
{
    broadcast use vstd::seq_lib::group_to_multiset_ensures;
    broadcast use vstd::multiset::group_multiset_axioms;

    assert(whole.push(x).to_multiset() =~= a.push(x).to_multiset().add(b.to_multiset()));
    assert(whole.push(x).to_multiset() =~= a.to_multiset().add(b.push(x).to_multiset()));
}

fn merge(a: &Vec<i64>, b: &Vec<i64>) -> (out: Vec<i64>)
    requires
        sorted_by(a@, at_most()),
        sorted_by(b@, at_most()),
    ensures
        sorted_by(out@, at_most()),
        out@.to_multiset() == (a@ + b@).to_multiset(),
{
    broadcast use vstd::seq_lib::group_to_multiset_ensures;
    broadcast use vstd::multiset::group_multiset_axioms;

    let mut out: Vec<i64> = Vec::new();
    let mut i: usize = 0;
    let mut j: usize = 0;
    assert(out@ =~= Seq::<i64>::empty());
    assert(a@.take(0) =~= Seq::<i64>::empty());
    assert(b@.take(0) =~= Seq::<i64>::empty());
    assert(out@.to_multiset() =~= a@.take(0).to_multiset().add(b@.take(0).to_multiset()));
    while i < a.len() || j < b.len()
        invariant
            i <= a@.len(),
            j <= b@.len(),
            sorted_by(a@, at_most()),
            sorted_by(b@, at_most()),
            sorted_by(out@, at_most()),
            forall|k: int, m: int|
                0 <= k < out@.len() && i <= m < a@.len() ==> #[trigger] out@[k]
                    <= #[trigger] a@[m],
            forall|k: int, m: int|
                0 <= k < out@.len() && j <= m < b@.len() ==> #[trigger] out@[k]
                    <= #[trigger] b@[m],
            out@.to_multiset() == a@.take(i as int).to_multiset().add(
                b@.take(j as int).to_multiset(),
            ),
        decreases a@.len() - i + b@.len() - j,
    {
        let from_a: bool = j >= b.len() || (i < a.len() && a[i] <= b[j]);
        let ghost before = out@;
        if from_a {
            let x: i64 = a[i];
            out.push(x);
            proof {
                assert(a@.take(i + 1) =~= a@.take(i as int).push(x));
                lemma_multiset_push(before, a@.take(i as int), b@.take(j as int), x);
                assert forall|m: int| i < m < a@.len() implies x <= #[trigger] a@[m] by {
                    assert(at_most()(a@[i as int], a@[m]));
                }
                assert forall|m: int| j <= m < b@.len() implies x <= #[trigger] b@[m] by {
                    if m > j {
                        assert(at_most()(b@[j as int], b@[m]));
                    }
                }
            }
            i += 1;
        } else {
            let x: i64 = b[j];
            out.push(x);
            proof {
                assert(b@.take(j + 1) =~= b@.take(j as int).push(x));
                lemma_multiset_push(before, a@.take(i as int), b@.take(j as int), x);
                assert forall|m: int| j < m < b@.len() implies x <= #[trigger] b@[m] by {
                    assert(at_most()(b@[j as int], b@[m]));
                }
                assert forall|m: int| i <= m < a@.len() implies x <= #[trigger] a@[m] by {
                    if m > i {
                        assert(at_most()(a@[i as int], a@[m]));
                    }
                }
            }
            j += 1;
        }
        assert forall|k: int, m: int| 0 <= k < m < out@.len() implies #[trigger] at_most()(
            out@[k],
            out@[m],
        ) by {
            if m < before.len() {
                assert(at_most()(before[k], before[m]));
            }
        }
    }
    proof {
        assert(a@.take(a@.len() as int) =~= a@);
        assert(b@.take(b@.len() as int) =~= b@);
        lemma_multiset_concat(a@, b@);
    }
    out
}

fn merge_sort(v: &Vec<i64>, from: usize, to: usize) -> (out: Vec<i64>)
    requires
        from <= to <= v@.len(),
    ensures
        sorted_by(out@, at_most()),
        out@.to_multiset() == v@.subrange(from as int, to as int).to_multiset(),
    decreases to - from,
{
    if to - from <= 1 {
        let mut out: Vec<i64> = Vec::new();
        if from < to {
            out.push(v[from]);
        }
        assert(out@ =~= v@.subrange(from as int, to as int));
        out
    } else {
        let mid: usize = from + (to - from) / 2;
        let a = merge_sort(v, from, mid);
        let b = merge_sort(v, mid, to);
        proof {
            lemma_multiset_concat(a@, b@);
            lemma_multiset_concat(
                v@.subrange(from as int, mid as int),
                v@.subrange(mid as int, to as int),
            );
            assert(v@.subrange(from as int, mid as int) + v@.subrange(mid as int, to as int)
                =~= v@.subrange(from as int, to as int));
        }
        merge(&a, &b)
    }
}

/// The numbers of a list in ascending order.
pub fn sorted(v: &Vec<i64>) -> (out: Vec<i64>)
    ensures
        out@ == ascending(v@),
        out@.len() == v@.len(),
{
    let out = merge_sort(v, 0, v.len());
    proof {
        assert(v@.subrange(0, v@.len() as int) =~= v@);
        lemma_is_ascending(v@, out@);
        lemma_ascending(v@);
    }
    out
}

} // verus!
