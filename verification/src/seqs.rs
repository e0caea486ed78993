//! Facts about filtered, mapped and rearranged sequences.

use vstd::multiset::Multiset;
use vstd::prelude::*;
use vstd::relations::sorted_by;
use vstd::seq_lib::{
    lemma_multiset_commutative, to_multiset_build, to_multiset_contains, to_multiset_len,
    to_multiset_remove,
};

verus! {

/// A filter that every element passes keeps the sequence as it is.
pub proof fn lemma_filter_all<A>(s: Seq<A>, keep: spec_fn(A) -> bool)
    requires
        forall|i: int| 0 <= i < s.len() ==> keep(#[trigger] s[i]),
    ensures
        s.filter(keep) == s,
    decreases s.len(),
{
    reveal(Seq::filter);
    if s.len() > 0 {
        lemma_filter_all(s.drop_last(), keep);
        assert(s.drop_last().push(s.last()) =~= s);
    }
}

/// A filter that no element passes leaves nothing.
pub proof fn lemma_filter_none<A>(s: Seq<A>, keep: spec_fn(A) -> bool)
    requires
        forall|i: int| 0 <= i < s.len() ==> !keep(#[trigger] s[i]),
    ensures
        s.filter(keep) == Seq::<A>::empty(),
    decreases s.len(),
{
    reveal(Seq::filter);
    if s.len() > 0 {
        lemma_filter_none(s.drop_last(), keep);
    }
}

/// Filtering by a wider condition first changes nothing.
pub proof fn lemma_filter_twice<A>(s: Seq<A>, wide: spec_fn(A) -> bool, narrow: spec_fn(A) -> bool)
    requires
        forall|x: A| #[trigger] narrow(x) ==> wide(x),
    ensures
        s.filter(wide).filter(narrow) == s.filter(narrow),
    decreases s.len(),
{
    reveal(Seq::filter);
    if s.len() > 0 {
        lemma_filter_twice(s.drop_last(), wide, narrow);
        if wide(s.last()) {
            s.drop_last().filter(wide).lemma_filter_push(s.last(), narrow);
        }
    }
}

/// Every element of a filtered sequence is an element of the sequence and
/// passes the filter, and every element of the sequence that passes is kept.
pub proof fn lemma_filter_contains<A>(s: Seq<A>, keep: spec_fn(A) -> bool, x: A)
    ensures
        s.filter(keep).contains(x) <==> s.contains(x) && keep(x),
    decreases s.len(),
{
    reveal(Seq::filter);
    if s.len() > 0 {
        let front = s.drop_last();
        lemma_filter_contains(front, keep, x);
        if s.filter(keep).contains(x) {
            let i = choose|i: int| 0 <= i < s.filter(keep).len() && s.filter(keep)[i] == x;
            if keep(s.last()) && i == front.filter(keep).len() {
                assert(s[s.len() - 1] == x);
            } else {
                assert(front.filter(keep)[i] == x);
                assert(front.filter(keep).contains(x));
                let j = choose|j: int| 0 <= j < front.len() && front[j] == x;
                assert(s[j] == x);
            }
        }
        if s.contains(x) && keep(x) {
            let j = choose|j: int| 0 <= j < s.len() && s[j] == x;
            if j == s.len() - 1 {
                assert(s.filter(keep)[s.filter(keep).len() - 1] == x);
            } else {
                assert(front[j] == x);
                assert(front.contains(x));
                let i = choose|i: int| 0 <= i < front.filter(keep).len() && front.filter(keep)[i]
                    == x;
                assert(s.filter(keep)[i] == x);
            }
        }
    }
}

/// A sorted sequence stays sorted when it is filtered.
pub proof fn lemma_filter_sorted<A>(s: Seq<A>, keep: spec_fn(A) -> bool, le: spec_fn(A, A) -> bool)
    requires
        sorted_by(s, le),
    ensures
        sorted_by(s.filter(keep), le),
    decreases s.len(),
{
    reveal(Seq::filter);
    if s.len() > 0 {
        let front = s.drop_last();
        assert forall|i: int, j: int| 0 <= i < j < front.len() implies #[trigger] le(
            front[i],
            front[j],
        ) by {
            assert(le(s[i], s[j]));
        }
        lemma_filter_sorted(front, keep, le);
        if keep(s.last()) {
            let kept = front.filter(keep);
            assert forall|i: int, j: int| 0 <= i < j < kept.len() + 1 implies #[trigger] le(
                kept.push(s.last())[i],
                kept.push(s.last())[j],
            ) by {
                if j == kept.len() {
                    lemma_filter_contains(front, keep, kept[i]);
                    assert(kept.contains(kept[i]));
                    let k = choose|k: int| 0 <= k < front.len() && front[k] == kept[i];
                    assert(le(s[k], s[s.len() - 1]));
                } else {
                    assert(le(kept[i], kept[j]));
                }
            }
        }
    }
}

/// Two sequences that hold the same elements equally often still do so
/// after the same filter.
pub proof fn lemma_filter_rearranged<A>(a: Seq<A>, b: Seq<A>, keep: spec_fn(A) -> bool)
    requires
        a.to_multiset() == b.to_multiset(),
    ensures
        a.filter(keep).to_multiset() == b.filter(keep).to_multiset(),
    decreases a.len(),
{
    to_multiset_len(a);
    to_multiset_len(b);
    if a.len() == 0 {
        assert(a.filter(keep) =~= b.filter(keep)) by {
            reveal(Seq::filter);
        }
    } else {
        let x = a.last();
        let front = a.drop_last();
        assert(front.push(x) =~= a);
        to_multiset_build(front, x);
        to_multiset_contains(a, x);
        to_multiset_contains(b, x);
        assert(a.contains(x)) by {
            assert(a[a.len() - 1] == x);
        }
        let j = choose|j: int| 0 <= j < b.len() && b[j] == x;
        let rest = b.remove(j);
        to_multiset_remove(b, j);
        assert(front.to_multiset() =~= a.to_multiset().remove(x));
        lemma_filter_rearranged(front, rest, keep);
        front.lemma_filter_push(x, keep);
        let left = b.subrange(0, j);
        let right = b.subrange(j + 1, b.len() as int);
        assert(b =~= left + seq![x] + right);
        assert(rest =~= left + right);
        Seq::filter_distributes_over_add(left + seq![x], right, keep);
        Seq::filter_distributes_over_add(left, seq![x], keep);
        Seq::filter_distributes_over_add(left, right, keep);
        assert(seq![x].filter(keep) =~= if keep(x) {
            seq![x]
        } else {
            Seq::empty()
        }) by {
            Seq::<A>::empty().lemma_filter_push(x, keep);
            assert(Seq::<A>::empty().push(x) =~= seq![x]);
            assert(Seq::<A>::empty().filter(keep) =~= Seq::<A>::empty()) by {
                reveal(Seq::filter);
            }
        }
        lemma_multiset_commutative(left.filter(keep), right.filter(keep));
        lemma_multiset_commutative(left.filter(keep) + seq![x].filter(keep), right.filter(keep));
        lemma_multiset_commutative(left.filter(keep), seq![x].filter(keep));
        if keep(x) {
            to_multiset_build(front.filter(keep), x);
            to_multiset_build(Seq::<A>::empty(), x);
            assert(Seq::<A>::empty().push(x) =~= seq![x]);
            assert(Seq::<A>::empty().to_multiset() =~= Multiset::<A>::empty()) by {
                to_multiset_len(Seq::<A>::empty());
            }
            assert(b.filter(keep).to_multiset() =~= rest.filter(keep).to_multiset().insert(x));
        } else {
            assert(left.filter(keep) + seq![x].filter(keep) =~= left.filter(keep));
        }
    }
}

/// Two sequences that hold the same elements equally often still do so
/// after the same function is applied to every element.
pub proof fn lemma_map_rearranged<A, B>(a: Seq<A>, b: Seq<A>, f: spec_fn(A) -> B)
    requires
        a.to_multiset() == b.to_multiset(),
    ensures
        a.map_values(f).to_multiset() == b.map_values(f).to_multiset(),
    decreases a.len(),
{
    to_multiset_len(a);
    to_multiset_len(b);
    if a.len() == 0 {
        assert(a.map_values(f) =~= b.map_values(f));
    } else {
        let x = a.last();
        let front = a.drop_last();
        assert(front.push(x) =~= a);
        to_multiset_build(front, x);
        to_multiset_contains(a, x);
        to_multiset_contains(b, x);
        assert(a.contains(x)) by {
            assert(a[a.len() - 1] == x);
        }
        let j = choose|j: int| 0 <= j < b.len() && b[j] == x;
        let rest = b.remove(j);
        to_multiset_remove(b, j);
        assert(front.to_multiset() =~= a.to_multiset().remove(x));
        lemma_map_rearranged(front, rest, f);
        assert(a.map_values(f) =~= front.map_values(f).push(f(x)));
        to_multiset_build(front.map_values(f), f(x));
        assert(b.map_values(f) =~= rest.map_values(f).insert(j, f(x)));
        vstd::seq_lib::to_multiset_insert(rest.map_values(f), j, f(x));
    }
}

/// Two sorted sequences without repetition that hold the same elements are
/// the same sequence, where no two different elements may stand either way.
pub proof fn lemma_sorted_distinct_unique<A>(a: Seq<A>, b: Seq<A>, le: spec_fn(A, A) -> bool)
    requires
        sorted_by(a, le),
        sorted_by(b, le),
        a.no_duplicates(),
        b.no_duplicates(),
        forall|x: A| a.contains(x) <==> b.contains(x),
        forall|x: A, y: A|
            a.contains(x) && a.contains(y) && #[trigger] le(x, y) && #[trigger] le(y, x) ==> x == y,
    ensures
        a == b,
    decreases a.len(),
{
    if a.len() == 0 {
        if b.len() > 0 {
            assert(b.contains(b[0]));
        }
        assert(a =~= b);
    } else {
        assert(a.contains(a[0]));
        if b.len() == 0 {
            assert(b.contains(a[0]));
        }
        assert(b.contains(b[0]));
        let i = choose|i: int| 0 <= i < a.len() && a[i] == b[0];
        let j = choose|j: int| 0 <= j < b.len() && b[j] == a[0];
        if i != 0 && j != 0 {
            assert(le(a[0], a[i]));
            assert(le(b[0], b[j]));
        }
        assert(a[0] == b[0]);
        let a_rest = a.drop_first();
        let b_rest = b.drop_first();
        assert forall|x: A| a_rest.contains(x) <==> b_rest.contains(x) by {
            if a_rest.contains(x) {
                let k = choose|k: int| 0 <= k < a_rest.len() && a_rest[k] == x;
                assert(a[k + 1] == x);
                assert(a.contains(x));
                let m = choose|m: int| 0 <= m < b.len() && b[m] == x;
                assert(m != 0);
                assert(b_rest[m - 1] == x);
            }
            if b_rest.contains(x) {
                let k = choose|k: int| 0 <= k < b_rest.len() && b_rest[k] == x;
                assert(b[k + 1] == x);
                assert(b.contains(x));
                let m = choose|m: int| 0 <= m < a.len() && a[m] == x;
                assert(m != 0);
                assert(a_rest[m - 1] == x);
            }
        }
        assert forall|x: A, y: A|
            a_rest.contains(x) && a_rest.contains(y) && #[trigger] le(x, y) && #[trigger] le(
                y,
                x,
            ) implies x == y by {
            let k = choose|k: int| 0 <= k < a_rest.len() && a_rest[k] == x;
            assert(a[k + 1] == x);
            let m = choose|m: int| 0 <= m < a_rest.len() && a_rest[m] == y;
            assert(a[m + 1] == y);
        }
        assert forall|k: int, m: int| 0 <= k < m < a_rest.len() implies #[trigger] le(
            a_rest[k],
            a_rest[m],
        ) by {
            assert(le(a[k + 1], a[m + 1]));
        }
        assert forall|k: int, m: int| 0 <= k < m < b_rest.len() implies #[trigger] le(
            b_rest[k],
            b_rest[m],
        ) by {
            assert(le(b[k + 1], b[m + 1]));
        }
        lemma_sorted_distinct_unique(a_rest, b_rest, le);
        assert(a =~= seq![a[0]] + a_rest);
        assert(b =~= seq![b[0]] + b_rest);
    }
}

} // verus!
