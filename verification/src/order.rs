//! Stable ordering of positions by a key.
use vstd::prelude::*;

verus! {

/// Whether position `a` goes before position `b`: by the smaller key, and among equal keys by the
/// smaller position.
pub open spec fn precedes(keys: Seq<int>, a: int, b: int) -> bool {
    keys[a] < keys[b] || (keys[a] == keys[b] && a < b)
}

/// Whether `order` lists the positions of all `keys` so that each goes before those listed later.
pub open spec fn is_stable_order(keys: Seq<int>, order: Seq<int>) -> bool {
    &&& order.len() == keys.len()
    &&& forall|i: int| 0 <= i < order.len() ==> 0 <= #[trigger] order[i] < keys.len()
    &&& forall|i: int, j: int|
        0 <= i < j < order.len() ==> precedes(keys, #[trigger] order[i], #[trigger] order[j])
}

/// The positions of the keys, by rising key, equal keys in the order in which they stand.
pub open spec fn stable_order(keys: Seq<int>) -> Seq<int> {
    choose|order: Seq<int>| is_stable_order(keys, order)
}

/// The keys as integers.
pub open spec fn as_ints(keys: Seq<u64>) -> Seq<int> {
    keys.map_values(|k: u64| k as int)
}

/// Positions as integers.
pub open spec fn positions(order: Seq<usize>) -> Seq<int> {
    order.map_values(|p: usize| p as int)
}

/// Every position stands in a stable order.
pub proof fn lemma_order_complete(keys: Seq<int>, order: Seq<int>, p: int)
    requires
        is_stable_order(keys, order),
        0 <= p < keys.len(),
    ensures
        order.contains(p),
{
    let n = keys.len() as int;
    let all = vstd::set_lib::set_int_range(0, n);
    vstd::set_lib::lemma_int_range(0, n);
    assert(order.no_duplicates());
    order.unique_seq_to_set();
    let listed = order.to_set();
    assert(listed.subset_of(all));
    vstd::set_lib::lemma_subset_equality(listed, all);
    assert(all.contains(p));
    assert(listed.contains(p));
}

/// There is at most one stable order.
pub proof fn lemma_order_unique(keys: Seq<int>, first: Seq<int>, second: Seq<int>)
    requires
        is_stable_order(keys, first),
        is_stable_order(keys, second),
    ensures
        first == second,
{
    lemma_order_agrees(keys, first, second, keys.len() as int);
    assert(first =~= second);
}

/// Two stable orders agree up to every position.
proof fn lemma_order_agrees(keys: Seq<int>, first: Seq<int>, second: Seq<int>, n: int)
    requires
        is_stable_order(keys, first),
        is_stable_order(keys, second),
        0 <= n <= keys.len(),
    ensures
        forall|i: int| 0 <= i < n ==> first[i] == second[i],
    decreases n,
{
    if n > 0 {
        lemma_order_agrees(keys, first, second, n - 1);
        let a = first[n - 1];
        let b = second[n - 1];
        if a != b {
            lemma_order_complete(keys, second, a);
            lemma_order_complete(keys, first, b);
            let j = choose|j: int| 0 <= j < second.len() && second[j] == a;
            let k = choose|k: int| 0 <= k < first.len() && first[k] == b;
            if j < n - 1 {
                assert(first[j] == a);
                assert(precedes(keys, first[j], first[n - 1]));
            }
            if k < n - 1 {
                assert(second[k] == b);
                assert(precedes(keys, second[k], second[n - 1]));
            }
            assert(precedes(keys, second[n - 1], second[j]));
            assert(precedes(keys, first[n - 1], first[k]));
        }
    }
}

/// How many positions of a stable order hold keys up to `key`.
spec fn count_up_to(keys: Seq<int>, order: Seq<int>, key: int) -> nat
    decreases order.len(),
{
    if order.len() == 0 || keys[order.last()] <= key {
        order.len()
    } else {
        count_up_to(keys, order.drop_last(), key)
    }
}

/// The positions counted are those with keys up to `key`.
proof fn lemma_count_up_to(keys: Seq<int>, order: Seq<int>, key: int)
    requires
        forall|i: int, j: int|
            0 <= i < j < order.len() ==> precedes(keys, #[trigger] order[i], #[trigger] order[j]),
    ensures
        count_up_to(keys, order, key) <= order.len(),
        forall|i: int|
            0 <= i < order.len() ==> (i < count_up_to(keys, order, key) <==> keys[#[trigger] order[i]]
                <= key),
    decreases order.len(),
{
    if order.len() > 0 && keys[order.last()] > key {
        let shorter = order.drop_last();
        lemma_count_up_to(keys, shorter, key);
        assert forall|i: int| 0 <= i < order.len() implies (i < count_up_to(keys, order, key)
            <==> keys[#[trigger] order[i]] <= key) by {
            if i < shorter.len() {
                assert(shorter[i] == order[i]);
            }
        }
    }
}

/// Every sequence of keys has a stable order.
pub proof fn lemma_order_exists(keys: Seq<int>)
    ensures
        is_stable_order(keys, stable_order(keys)),
    decreases keys.len(),
{
    if keys.len() == 0 {
        assert(is_stable_order(keys, Seq::<int>::empty()));
    } else {
        let shorter = keys.drop_last();
        let order = stable_order(shorter);
        lemma_order_exists(shorter);
        assert forall|i: int, j: int| 0 <= i < j < order.len() implies precedes(
            keys,
            #[trigger] order[i],
            #[trigger] order[j],
        ) by {
            assert(precedes(shorter, order[i], order[j]));
        }
        let at = count_up_to(keys, order, keys.last()) as int;
        lemma_count_up_to(keys, order, keys.last());
        let last = keys.len() - 1;
        let longer = order.insert(at, last);
        assert forall|i: int| 0 <= i < longer.len() implies 0 <= #[trigger] longer[i]
            < keys.len() by {
            if i < at {
                assert(longer[i] == order[i]);
            } else if i > at {
                assert(longer[i] == order[i - 1]);
            }
        }
        assert forall|i: int, j: int| 0 <= i < j < longer.len() implies precedes(
            keys,
            #[trigger] longer[i],
            #[trigger] longer[j],
        ) by {
            let a = if i < at {
                order[i]
            } else if i == at {
                last
            } else {
                order[i - 1]
            };
            let b = if j < at {
                order[j]
            } else if j == at {
                last
            } else {
                order[j - 1]
            };
            assert(longer[i] == a && longer[j] == b);
        }
        assert(is_stable_order(keys, longer));
    }
}

/// A stable order that was found is the stable order.
pub proof fn lemma_order_is(keys: Seq<int>, order: Seq<int>)
    requires
        is_stable_order(keys, order),
    ensures
        order == stable_order(keys),
{
    lemma_order_unique(keys, order, stable_order(keys));
}

/// Whether `order` lists the positions from `from` up to `to` in stable order.
spec fn orders_range(keys: Seq<int>, order: Seq<int>, from: int, to: int) -> bool {
    &&& order.len() == to - from
    &&& forall|i: int| 0 <= i < order.len() ==> from <= #[trigger] order[i] < to
    &&& forall|i: int, j: int|
        0 <= i < j < order.len() ==> precedes(keys, #[trigger] order[i], #[trigger] order[j])
}

/// The positions of two neighbouring ranges in one stable order.
fn merge(
    keys: &Vec<u64>,
    left: &Vec<usize>,
    right: &Vec<usize>,
    Ghost(from): Ghost<int>,
    Ghost(middle): Ghost<int>,
    Ghost(to): Ghost<int>,
) -> (r: Vec<usize>)
    requires
        0 <= from <= middle <= to <= keys@.len(),
        orders_range(as_ints(keys@), positions(left@), from, middle),
        orders_range(as_ints(keys@), positions(right@), middle, to),
    ensures
        orders_range(as_ints(keys@), positions(r@), from, to),
{
    let ghost k = as_ints(keys@);
    let ghost l = positions(left@);
    let ghost r = positions(right@);
    let mut out: Vec<usize> = Vec::new();
    let mut i: usize = 0;
    let mut j: usize = 0;
    while i < left.len() || j < right.len()
        invariant
            0 <= from <= middle <= to <= keys@.len(),
            k == as_ints(keys@),
            l == positions(left@),
            r == positions(right@),
            orders_range(k, l, from, middle),
            orders_range(k, r, middle, to),
            i <= left@.len(),
            j <= right@.len(),
            out@.len() == i + j,
            forall|a: int| 0 <= a < out@.len() ==> from <= #[trigger] positions(out@)[a] < to,
            forall|a: int, b: int|
                0 <= a < b < out@.len() ==> precedes(
                    k,
                    #[trigger] positions(out@)[a],
                    #[trigger] positions(out@)[b],
                ),
            forall|a: int, b: int|
                0 <= a < out@.len() && i <= b < l.len() ==> precedes(
                    k,
                    #[trigger] positions(out@)[a],
                    #[trigger] l[b],
                ),
            forall|a: int, b: int|
                0 <= a < out@.len() && j <= b < r.len() ==> precedes(
                    k,
                    #[trigger] positions(out@)[a],
                    #[trigger] r[b],
                ),
        decreases left@.len() + right@.len() - i - j,
    {
        let ghost before = positions(out@);
        let ghost n = out@.len() as int;
        proof {
            if i < left@.len() {
                assert(l[i as int] == left@[i as int]);
                assert(from <= l[i as int] < middle);
            }
            if j < right@.len() {
                assert(r[j as int] == right@[j as int]);
                assert(middle <= r[j as int] < to);
            }
        }
        let from_left = j == right.len() || (i < left.len() && keys[left[i]] <= keys[right[j]]);
        if from_left {
            out.push(left[i]);
            i += 1;
        } else {
            out.push(right[j]);
            j += 1;
        }
        let ghost next = positions(out@)[n];
        assert(positions(out@) =~= before.push(next));
        proof {
            assert forall|b: int| i <= b < l.len() implies precedes(k, next, #[trigger] l[b]) by {
                if from_left {
                    assert(precedes(k, l[i - 1], l[b]));
                } else if b > i {
                    assert(precedes(k, l[i as int], l[b]));
                }
            }
            assert forall|b: int| j <= b < r.len() implies precedes(k, next, #[trigger] r[b]) by {
                if !from_left {
                    assert(precedes(k, r[j - 1], r[b]));
                } else if b > j {
                    assert(precedes(k, r[j as int], r[b]));
                }
            }
        }
    }
    out
}

/// The positions of a range in stable order.
fn sort_range(keys: &Vec<u64>, from: usize, to: usize) -> (r: Vec<usize>)
    requires
        from <= to <= keys@.len(),
    ensures
        orders_range(as_ints(keys@), positions(r@), from as int, to as int),
    decreases to - from,
{
    let mut out: Vec<usize> = Vec::new();
    if to - from == 0 {
        return out;
    }
    if to - from == 1 {
        out.push(from);
        return out;
    }
    let middle: usize = from + (to - from) / 2;
    let left = sort_range(keys, from, middle);
    let right = sort_range(keys, middle, to);
    merge(keys, &left, &right, Ghost(from as int), Ghost(middle as int), Ghost(to as int))
}

/// The positions of the keys, by rising key, equal keys in the order in which they stand.
pub fn sorted_positions(keys: &Vec<u64>) -> (r: Vec<usize>)
    ensures
        positions(r@) == stable_order(as_ints(keys@)),
        is_stable_order(as_ints(keys@), positions(r@)),
{
    let r = sort_range(keys, 0, keys.len());
    proof {
        assert(is_stable_order(as_ints(keys@), positions(r@)));
        lemma_order_is(as_ints(keys@), positions(r@));
    }
    r
}

} // verus!
