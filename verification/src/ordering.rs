//! Stable ordering of indices by a "sorts before" relation, the order a
//! stable sort (`sort_by`, `sort_by_key`) leaves them in.

use vstd::prelude::*;

verus! {

/// Inserts index `i` into `order` after every index that `i` does not sort
/// before: a stable insertion.
pub open spec fn insert_by(order: Seq<int>, i: int, before: spec_fn(int, int) -> bool) -> Seq<int>
    decreases order.len(),
{
    if order.len() == 0 {
        seq![i]
    } else if before(i, order.last()) {
        insert_by(order.drop_last(), i, before).push(order.last())
    } else {
        order.push(i)
    }
}

/// The indices `0..n` stably sorted by `before`.
pub open spec fn stable_order(n: nat, before: spec_fn(int, int) -> bool) -> Seq<int>
    decreases n,
{
    if n == 0 {
        seq![]
    } else {
        insert_by(stable_order((n - 1) as nat, before), n - 1, before)
    }
}

/// A sequence of indices widened to `int`.
pub open spec fn as_ints(v: Seq<usize>) -> Seq<int> {
    v.map_values(|x: usize| x as int)
}

/// Inserting at the position found by scanning back over the indices that
/// `i` sorts before is the stable insertion.
pub proof fn lemma_insert_by(order: Seq<int>, i: int, before: spec_fn(int, int) -> bool, p: int)
    requires
        0 <= p <= order.len(),
        forall|k: int| p <= k < order.len() ==> #[trigger] before(i, order[k]),
        p == 0 || !before(i, order[p - 1]),
    ensures
        insert_by(order, i, before) == order.insert(p, i),
    decreases order.len(),
{
    if order.len() == 0 {
        assert(order.insert(p, i) =~= seq![i]);
    } else if before(i, order.last()) {
        assert(before(i, order[order.len() - 1]));
        assert(p < order.len());
        let rest = order.drop_last();
        assert forall|k: int| p <= k < rest.len() implies #[trigger] before(i, rest[k]) by {
            assert(rest[k] == order[k]);
            assert(before(i, order[k]));
        }
        lemma_insert_by(rest, i, before, p);
        assert(rest.insert(p, i).push(order.last()) =~= order.insert(p, i));
    } else {
        assert(p == order.len());
        assert(order.push(i) =~= order.insert(p, i));
    }
}


/// `before` is a strict weak order on the indices `0..n`: asymmetric, and
/// "not before" is transitive (so ties form classes).
pub open spec fn strict_weak_order(before: spec_fn(int, int) -> bool, n: int) -> bool {
    &&& forall|a: int, b: int| 0 <= a < n && 0 <= b < n && #[trigger] before(a, b) ==> !before(b, a)
    &&& forall|a: int, b: int, c: int|
        0 <= a < n && 0 <= b < n && 0 <= c < n && #[trigger] before(a, c) ==> #[trigger] before(a, b)
            || #[trigger] before(b, c)
}

/// `order` lists each index of `0..n` exactly once.
pub open spec fn is_permutation(order: Seq<int>, n: int) -> bool {
    &&& order.len() == n
    &&& forall|k: int| 0 <= k < order.len() ==> 0 <= #[trigger] order[k] < n
    &&& forall|i: int, j: int| 0 <= i < j < order.len() ==> #[trigger] order[i] != #[trigger] order[j]
}

/// No index of `order` sorts before an index listed earlier.
pub open spec fn is_sorted_by(order: Seq<int>, before: spec_fn(int, int) -> bool) -> bool {
    forall|i: int, j: int| 0 <= i < j < order.len() ==> !before(#[trigger] order[j], #[trigger] order[i])
}

proof fn lemma_insert_by_position(order: Seq<int>, i: int, before: spec_fn(int, int) -> bool) -> (p: int)
    ensures
        0 <= p <= order.len(),
        forall|k: int| p <= k < order.len() ==> #[trigger] before(i, order[k]),
        p == 0 || !before(i, order[p - 1]),
        insert_by(order, i, before) == order.insert(p, i),
    decreases order.len(),
{
    if order.len() == 0 {
        assert(order.insert(0, i) =~= seq![i]);
        0
    } else if before(i, order.last()) {
        let rest = order.drop_last();
        let p = lemma_insert_by_position(rest, i, before);
        assert forall|k: int| p <= k < order.len() implies #[trigger] before(i, order[k]) by {
            if k < rest.len() {
                assert(before(i, rest[k]));
            }
        }
        if p > 0 {
            assert(rest[p - 1] == order[p - 1]);
        }
        assert(rest.insert(p, i).push(order.last()) =~= order.insert(p, i));
        p
    } else {
        assert(order.push(i) =~= order.insert(order.len() as int, i));
        order.len() as int
    }
}

/// A stable sort by a strict weak order lists every index once, in order:
/// no index sorts before one listed earlier.
pub proof fn lemma_stable_order_sorted(n: nat, before: spec_fn(int, int) -> bool)
    requires
        strict_weak_order(before, n as int),
    ensures
        is_permutation(stable_order(n, before), n as int),
        is_sorted_by(stable_order(n, before), before),
    decreases n,
{
    if n > 0 {
        let m = (n - 1) as nat;
        assert(strict_weak_order(before, m as int));
        lemma_stable_order_sorted(m, before);
        let o = stable_order(m, before);
        let x = m as int;
        let p = lemma_insert_by_position(o, x, before);
        let r = o.insert(p, x);
        assert(r == stable_order(n, before));
        assert forall|k: int| 0 <= k < r.len() implies 0 <= #[trigger] r[k] < n by {
            if k < p {
                assert(r[k] == o[k]);
            } else if k > p {
                assert(r[k] == o[k - 1]);
            }
        }
        assert forall|a: int, b: int| 0 <= a < b < r.len() implies #[trigger] r[a] != #[trigger] r[b] by {
            if a < p && b < p {
                assert(r[a] == o[a] && r[b] == o[b]);
            } else if a < p && b > p {
                assert(r[a] == o[a] && r[b] == o[b - 1]);
            } else if a > p {
                assert(r[a] == o[a - 1] && r[b] == o[b - 1]);
            } else if a == p {
                assert(r[b] == o[b - 1]);
            } else {
                assert(b == p);
                assert(r[a] == o[a]);
            }
        }
        assert forall|a: int, b: int| 0 <= a < b < r.len() implies !before(#[trigger] r[b], #[trigger] r[a]) by {
            if a < p && b < p {
                assert(r[a] == o[a] && r[b] == o[b]);
            } else if a < p && b > p {
                assert(r[a] == o[a] && r[b] == o[b - 1]);
            } else if a > p {
                assert(r[a] == o[a - 1] && r[b] == o[b - 1]);
            } else if a == p {
                assert(r[b] == o[b - 1]);
                assert(before(x, o[b - 1]));
            } else {
                assert(b == p);
                assert(r[a] == o[a]);
                assert(!before(x, o[p - 1]));
                if a < p - 1 {
                    assert(!before(o[p - 1], o[a]));
                    if before(x, o[a]) {
                        assert(before(x, o[p - 1]) || before(o[p - 1], o[a]));
                    }
                }
            }
        }
    }
}


/// A stable sort keeps indices with equal keys in the order they came in,
/// when indices with equal keys never sort before each other.
pub proof fn lemma_stable_ties(n: nat, before: spec_fn(int, int) -> bool, key: spec_fn(int) -> Seq<char>)
    requires
        forall|a: int, b: int| 0 <= a < n && 0 <= b < n && key(a) == key(b) ==> !#[trigger] before(a, b),
    ensures
        forall|i: int, j: int| 0 <= i < j < stable_order(n, before).len() && key(#[trigger] stable_order(n, before)[i])
            == key(#[trigger] stable_order(n, before)[j]) ==> stable_order(n, before)[i] < stable_order(n, before)[j],
        forall|k: int| 0 <= k < stable_order(n, before).len() ==> 0 <= #[trigger] stable_order(n, before)[k] < n,
        stable_order(n, before).len() == n,
    decreases n,
{
    if n > 0 {
        let m = (n - 1) as nat;
        lemma_stable_ties(m, before, key);
        let o = stable_order(m, before);
        let x = m as int;
        let p = lemma_insert_by_position(o, x, before);
        let r = o.insert(p, x);
        assert(r == stable_order(n, before));
        assert forall|k: int| 0 <= k < r.len() implies 0 <= #[trigger] r[k] < n by {
            if k < p {
                assert(r[k] == o[k]);
            } else if k > p {
                assert(r[k] == o[k - 1]);
            }
        }
        assert forall|a: int, b: int| 0 <= a < b < r.len() && key(#[trigger] r[a]) == key(#[trigger] r[b]) implies r[a] < r[b] by {
            if a < p && b < p {
                assert(r[a] == o[a] && r[b] == o[b]);
            } else if a < p && b > p {
                assert(r[a] == o[a] && r[b] == o[b - 1]);
            } else if a > p {
                assert(r[a] == o[a - 1] && r[b] == o[b - 1]);
            } else if a == p {
                assert(r[b] == o[b - 1]);
                assert(before(x, o[b - 1]));
            } else {
                assert(r[a] == o[a]);
            }
        }
    }
}

} // verus!
