//! Stable sorting, as sequences.

use vstd::prelude::*;

verus! {

/// `s` with `x` placed behind every element that it does not strictly precede.
pub open spec fn place<T>(s: Seq<T>, x: T, precedes: spec_fn(T, T) -> bool) -> Seq<T>
    decreases s.len(),
{
    if s.len() == 0 || !precedes(x, s.last()) {
        s.push(x)
    } else {
        place(s.drop_last(), x, precedes).push(s.last())
    }
}

/// The elements of `s` in order, equals in the order in which they came.
pub open spec fn stable_sort<T>(s: Seq<T>, precedes: spec_fn(T, T) -> bool) -> Seq<T>
    decreases s.len(),
{
    if s.len() == 0 {
        s
    } else {
        place(stable_sort(s.drop_last(), precedes), s.last(), precedes)
    }
}

/// No element strictly precedes one that stands before it.
pub open spec fn in_order<T>(s: Seq<T>, precedes: spec_fn(T, T) -> bool) -> bool {
    forall|i: int, j: int| 0 <= i < j < s.len() ==> !precedes(#[trigger] s[j], #[trigger] s[i])
}

/// `precedes` ranks elements by a number.
pub open spec fn ranked<T>(precedes: spec_fn(T, T) -> bool, rank: spec_fn(T) -> int) -> bool {
    forall|a: T, b: T| #[trigger] precedes(a, b) == (rank(a) < rank(b))
}

/// Where `x` is placed.
pub proof fn lemma_place_at<T>(s: Seq<T>, x: T, precedes: spec_fn(T, T) -> bool, k: int)
    requires
        0 <= k <= s.len(),
        forall|i: int| k <= i < s.len() ==> precedes(x, #[trigger] s[i]),
        k > 0 ==> !precedes(x, s[k - 1]),
    ensures
        place(s, x, precedes) == s.take(k).push(x) + s.skip(k),
    decreases s.len(),
{
    if s.len() == k {
        assert(place(s, x, precedes) =~= s.take(k).push(x) + s.skip(k));
    } else {
        let d = s.drop_last();
        assert(precedes(x, s[s.len() - 1]));
        assert forall|i: int| k <= i < d.len() implies precedes(x, #[trigger] d[i]) by {
            assert(d[i] == s[i]);
        }
        if k > 0 {
            assert(d[k - 1] == s[k - 1]);
        }
        lemma_place_at(d, x, precedes, k);
        assert(place(s, x, precedes) =~= s.take(k).push(x) + s.skip(k)) by {
            assert(d.take(k) =~= s.take(k));
            assert(d.skip(k).push(s.last()) =~= s.skip(k));
        }
    }
}

proof fn lemma_place<T>(s: Seq<T>, x: T, precedes: spec_fn(T, T) -> bool, rank: spec_fn(T) -> int)
    requires
        ranked(precedes, rank),
        in_order(s, precedes),
    ensures
        in_order(place(s, x, precedes), precedes),
        place(s, x, precedes).len() == s.len() + 1,
        place(s, x, precedes).to_multiset() == s.to_multiset().insert(x),
        forall|i: int|
            0 <= i < place(s, x, precedes).len() ==> #[trigger] place(s, x, precedes)[i] == x
                || s.contains(place(s, x, precedes)[i]),
    decreases s.len(),
{
    broadcast use vstd::seq_lib::group_to_multiset_ensures;

    let p = place(s, x, precedes);
    if s.len() == 0 || !precedes(x, s.last()) {
        assert forall|i: int, j: int| 0 <= i < j < p.len() implies !precedes(
            #[trigger] p[j],
            #[trigger] p[i],
        ) by {
            if j == s.len() && i < s.len() - 1 {
                assert(!precedes(s[s.len() - 1], s[i]));
            }
        }
        assert forall|i: int| 0 <= i < p.len() implies #[trigger] p[i] == x || s.contains(p[i]) by {
            if i < s.len() {
                assert(s[i] == p[i]);
            }
        }
    } else {
        let d = s.drop_last();
        assert forall|i: int, j: int| 0 <= i < j < d.len() implies !precedes(
            #[trigger] d[j],
            #[trigger] d[i],
        ) by {
            assert(d[j] == s[j] && d[i] == s[i]);
        }
        lemma_place(d, x, precedes, rank);
        let q = place(d, x, precedes);
        assert forall|i: int| 0 <= i < p.len() implies #[trigger] p[i] == x || s.contains(p[i]) by {
            if i < q.len() {
                assert(p[i] == q[i]);
                if q[i] != x {
                    let k = choose|k: int| 0 <= k < d.len() && d[k] == q[i];
                    assert(s[k] == q[i]);
                }
            } else {
                assert(s[s.len() - 1] == p[i]);
            }
        }
        assert forall|i: int, j: int| 0 <= i < j < p.len() implies !precedes(
            #[trigger] p[j],
            #[trigger] p[i],
        ) by {
            if j < q.len() {
                assert(p[j] == q[j] && p[i] == q[i]);
            } else {
                assert(p[i] == q[i]);
                if q[i] != x {
                    let k = choose|k: int| 0 <= k < d.len() && d[k] == q[i];
                    assert(!precedes(s[s.len() - 1], s[k]));
                }
            }
        }
        assert(s =~= d.push(s.last()));
        assert(s.to_multiset() == d.to_multiset().insert(s.last()));
        assert(p.to_multiset() =~= s.to_multiset().insert(x));
    }
}

/// A stable sort keeps the elements and puts them in order.
pub proof fn lemma_stable_sort<T>(
    s: Seq<T>,
    precedes: spec_fn(T, T) -> bool,
    rank: spec_fn(T) -> int,
)
    requires
        ranked(precedes, rank),
    ensures
        in_order(stable_sort(s, precedes), precedes),
        stable_sort(s, precedes).len() == s.len(),
        stable_sort(s, precedes).to_multiset() == s.to_multiset(),
    decreases s.len(),
{
    broadcast use vstd::seq_lib::group_to_multiset_ensures;

    if s.len() > 0 {
        let d = s.drop_last();
        lemma_stable_sort(d, precedes, rank);
        lemma_place(stable_sort(d, precedes), s.last(), precedes, rank);
        assert(s =~= d.push(s.last()));
    }
}

/// A stable sort leaves equals in the order in which they came.
pub proof fn law_stable_sorts_keep_equals_in_order<T>(
    s: Seq<T>,
    precedes: spec_fn(T, T) -> bool,
    rank: spec_fn(T) -> int,
    k: int,
)
    requires
        ranked(precedes, rank),
    ensures
        stable_sort(s, precedes).filter(|x: T| rank(x) == k) == s.filter(|x: T| rank(x) == k),
    decreases s.len(),
{
    if s.len() > 0 {
        let d = s.drop_last();
        let p = |x: T| rank(x) == k;
        law_stable_sorts_keep_equals_in_order(d, precedes, rank, k);
        lemma_place_keeps_equals(stable_sort(d, precedes), s.last(), precedes, rank, k);
        assert(s =~= d.push(s.last()));
        lemma_filter_push(d, s.last(), p);
    }
}

proof fn lemma_filter_push<T>(s: Seq<T>, x: T, p: spec_fn(T) -> bool)
    ensures
        s.push(x).filter(p) == if p(x) {
            s.filter(p).push(x)
        } else {
            s.filter(p)
        },
{
    reveal(Seq::filter);
    assert(s.push(x).drop_last() =~= s);
}

proof fn lemma_place_keeps_equals<T>(
    s: Seq<T>,
    x: T,
    precedes: spec_fn(T, T) -> bool,
    rank: spec_fn(T) -> int,
    k: int,
)
    requires
        ranked(precedes, rank),
    ensures
        place(s, x, precedes).filter(|y: T| rank(y) == k) == if rank(x) == k {
            s.filter(|y: T| rank(y) == k).push(x)
        } else {
            s.filter(|y: T| rank(y) == k)
        },
    decreases s.len(),
{
    let p = |y: T| rank(y) == k;
    if s.len() == 0 || !precedes(x, s.last()) {
        lemma_filter_push(s, x, p);
    } else {
        let d = s.drop_last();
        lemma_place_keeps_equals(d, x, precedes, rank, k);
        lemma_filter_push(place(d, x, precedes), s.last(), p);
        assert(s =~= d.push(s.last()));
        lemma_filter_push(d, s.last(), p);
        assert(rank(x) < rank(s.last()));
    }
}

} // verus!
