use vstd::prelude::*;

verus! {

/// Inputs of at most this many items are ordered whole by insertion sort:
/// below this size partitioning costs more than it saves.
pub const SHORT_INPUT: usize = 16;

/// Position `a` ranks ahead of position `b`: its key is smaller, or the keys
/// are equal and `a` comes first. On distinct positions this is a strict
/// total order.
pub open spec fn ranks_before(keys: Seq<u64>, a: int, b: int) -> bool {
    keys[a] < keys[b] || (keys[a] == keys[b] && a < b)
}

/// The ranking order is a strict total order on positions: no position ranks
/// ahead of itself, of two distinct positions exactly one ranks ahead of the
/// other, and ranking ahead is transitive.
pub proof fn lemma_ranking_is_total(keys: Seq<u64>, a: int, b: int, c: int)
    ensures
        !ranks_before(keys, a, a),
        a != b ==> (ranks_before(keys, a, b) <==> !ranks_before(keys, b, a)),
        ranks_before(keys, a, b) && ranks_before(keys, b, c) ==> ranks_before(keys, a, c),
{
}

/// `order` holds each position of `0..n` exactly once.
pub open spec fn is_permutation(order: Seq<usize>, n: nat) -> bool {
    &&& order.len() == n
    &&& forall|i: int| 0 <= i < order.len() ==> #[trigger] order[i] < n
    &&& forall|i: int, j: int|
        #![trigger order[i], order[j]]
        0 <= i < order.len() && 0 <= j < order.len() && i != j ==> order[i] != order[j]
    &&& forall|k: int| 0 <= k < n ==> #[trigger] order_holds(order, k)
}

/// Some entry of `order` is `k`.
pub open spec fn order_holds(order: Seq<usize>, k: int) -> bool {
    exists|i: int| 0 <= i < order.len() && order[i] == k
}

/// Every entry of `order` before `mid` ranks ahead of every entry from `mid` on.
pub open spec fn separated(keys: Seq<u64>, order: Seq<usize>, mid: int) -> bool {
    forall|a: int, b: int|
        #![trigger order[a], order[b]]
        0 <= a < mid <= b < order.len() ==> ranks_before(keys, order[a] as int, order[b] as int)
}

/// The entries of `order` in `lo..hi` are in ranking order.
pub open spec fn sorted_between(keys: Seq<u64>, order: Seq<usize>, lo: int, hi: int) -> bool {
    forall|a: int, b: int|
        #![trigger order[a], order[b]]
        lo <= a < b < hi ==> ranks_before(keys, order[a] as int, order[b] as int)
}

fn ranks_before_exec(keys: &Vec<u64>, a: usize, b: usize) -> (r: bool)
    requires
        a < keys@.len(),
        b < keys@.len(),
    ensures
        r == ranks_before(keys@, a as int, b as int),
{
    keys[a] < keys[b] || (keys[a] == keys[b] && a < b)
}

fn swap(order: &mut Vec<usize>, i: usize, j: usize)
    requires
        i < old(order)@.len(),
        j < old(order)@.len(),
    ensures
        final(order)@ == old(order)@.update(i as int, old(order)@[j as int]).update(
            j as int,
            old(order)@[i as int],
        ),
{
    let a = order[i];
    let b = order[j];
    order.set(i, b);
    order.set(j, a);
}

proof fn lemma_swap_keeps(keys: Seq<u64>, s: Seq<usize>, i: int, j: int, lo: int, hi: int)
    requires
        0 <= lo <= i < hi <= s.len(),
        lo <= j < hi,
        is_permutation(s, keys.len()),
        separated(keys, s, lo),
        separated(keys, s, hi),
    ensures
        is_permutation(s.update(i, s[j]).update(j, s[i]), keys.len()),
        separated(keys, s.update(i, s[j]).update(j, s[i]), lo),
        separated(keys, s.update(i, s[j]).update(j, s[i]), hi),
{
    let t = s.update(i, s[j]).update(j, s[i]);
    assert forall|a: int, b: int|
        0 <= a < t.len() && 0 <= b < t.len() && a != b implies #[trigger] t[a] != #[trigger] t[b] by {
        let sa = if a == i { j } else if a == j { i } else { a };
        let sb = if b == i { j } else if b == j { i } else { b };
        assert(t[a] == s[sa] && t[b] == s[sb]);
        assert(s[sa] != s[sb]);
    }
    assert forall|k: int| 0 <= k < keys.len() implies #[trigger] order_holds(t, k) by {
        assert(order_holds(s, k));
        let w = choose|w: int| 0 <= w < s.len() && s[w] == k;
        let tw = if w == i { j } else if w == j { i } else { w };
        assert(t[tw] == k);
    }
    assert forall|a: int, b: int|
        0 <= a < lo <= b < t.len() implies ranks_before(
        keys,
        #[trigger] t[a] as int,
        #[trigger] t[b] as int,
    ) by {
        let sb = if b == i { j } else if b == j { i } else { b };
        assert(t[b] == s[sb] && t[a] == s[a]);
        assert(ranks_before(keys, s[a] as int, s[sb] as int));
    }
    assert forall|a: int, b: int|
        0 <= a < hi <= b < t.len() implies ranks_before(
        keys,
        #[trigger] t[a] as int,
        #[trigger] t[b] as int,
    ) by {
        let sa = if a == i { j } else if a == j { i } else { a };
        assert(t[a] == s[sa] && t[b] == s[b]);
        assert(ranks_before(keys, s[sa] as int, s[b] as int));
    }
}

/// Sorts `order[lo..hi]` into ranking order by insertion.
fn sort_window(order: &mut Vec<usize>, keys: &Vec<u64>, lo: usize, hi: usize)
    requires
        lo <= hi <= old(order)@.len(),
        is_permutation(old(order)@, keys@.len()),
        separated(keys@, old(order)@, lo as int),
        separated(keys@, old(order)@, hi as int),
    ensures
        is_permutation(final(order)@, keys@.len()),
        separated(keys@, final(order)@, lo as int),
        separated(keys@, final(order)@, hi as int),
        sorted_between(keys@, final(order)@, lo as int, hi as int),
{
    if lo == hi {
        return;
    }
    let mut i: usize = lo + 1;
    while i < hi
        invariant
            lo < i <= hi <= order@.len(),
            is_permutation(order@, keys@.len()),
            separated(keys@, order@, lo as int),
            separated(keys@, order@, hi as int),
            sorted_between(keys@, order@, lo as int, i as int),
        decreases hi - i,
    {
        let mut j: usize = i;
        while j > lo && ranks_before_exec(keys, order[j], order[j - 1])
            invariant
                lo <= j <= i < hi <= order@.len(),
                is_permutation(order@, keys@.len()),
                separated(keys@, order@, lo as int),
                separated(keys@, order@, hi as int),
                sorted_between(keys@, order@, lo as int, j as int),
                sorted_between(keys@, order@, j as int, i + 1),
                forall|a: int, b: int|
                    #![trigger order@[a], order@[b]]
                    lo <= a < j < b <= i ==> ranks_before(
                        keys@,
                        order@[a] as int,
                        order@[b] as int,
                    ),
            decreases j,
        {
            proof {
                lemma_swap_keeps(keys@, order@, (j - 1) as int, j as int, lo as int, hi as int);
            }
            swap(order, j - 1, j);
            j -= 1;
        }
        proof {
            if j > lo {
                assert(order@[j as int] != order@[j - 1]);
                assert(ranks_before(keys@, order@[j - 1] as int, order@[j as int] as int));
            }
        }
        i += 1;
    }
}

/// Partitions `order[lo..hi]` around the entry in its middle and returns the
/// index at which that entry lands.
fn partition(order: &mut Vec<usize>, keys: &Vec<u64>, lo: usize, hi: usize) -> (p: usize)
    requires
        lo < hi <= old(order)@.len(),
        is_permutation(old(order)@, keys@.len()),
        separated(keys@, old(order)@, lo as int),
        separated(keys@, old(order)@, hi as int),
    ensures
        lo <= p < hi,
        is_permutation(final(order)@, keys@.len()),
        separated(keys@, final(order)@, lo as int),
        separated(keys@, final(order)@, hi as int),
        forall|a: int|
            lo <= a < p ==> ranks_before(
                keys@,
                #[trigger] final(order)@[a] as int,
                final(order)@[p as int] as int,
            ),
        forall|b: int|
            p < b < hi ==> ranks_before(
                keys@,
                final(order)@[p as int] as int,
                #[trigger] final(order)@[b] as int,
            ),
{
    let mid = lo + (hi - lo) / 2;
    proof {
        lemma_swap_keeps(keys@, order@, mid as int, (hi - 1) as int, lo as int, hi as int);
    }
    swap(order, mid, hi - 1);
    let pivot = order[hi - 1];
    let mut i: usize = lo;
    let mut j: usize = lo;
    while j < hi - 1
        invariant
            lo <= i <= j <= hi - 1,
            hi <= order@.len(),
            is_permutation(order@, keys@.len()),
            separated(keys@, order@, lo as int),
            separated(keys@, order@, hi as int),
            order@[hi - 1] == pivot,
            forall|a: int| lo <= a < i ==> ranks_before(keys@, #[trigger] order@[a] as int, pivot as int),
            forall|a: int| i <= a < j ==> ranks_before(keys@, pivot as int, #[trigger] order@[a] as int),
        decreases hi - 1 - j,
    {
        assert(order@[j as int] != order@[hi - 1]);
        if ranks_before_exec(keys, order[j], pivot) {
            proof {
                lemma_swap_keeps(keys@, order@, i as int, j as int, lo as int, hi as int);
            }
            swap(order, i, j);
            i += 1;
        }
        j += 1;
    }
    proof {
        lemma_swap_keeps(keys@, order@, i as int, (hi - 1) as int, lo as int, hi as int);
    }
    swap(order, i, hi - 1);
    i
}

proof fn lemma_partition_separates(keys: Seq<u64>, s: Seq<usize>, lo: int, p: int, hi: int)
    requires
        0 <= lo <= p < hi <= s.len(),
        separated(keys, s, lo),
        separated(keys, s, hi),
        forall|a: int| lo <= a < p ==> ranks_before(keys, #[trigger] s[a] as int, s[p] as int),
        forall|b: int| p < b < hi ==> ranks_before(keys, s[p] as int, #[trigger] s[b] as int),
    ensures
        separated(keys, s, p),
        separated(keys, s, p + 1),
{
    assert forall|a: int, b: int|
        0 <= a < p <= b < s.len() implies ranks_before(
        keys,
        #[trigger] s[a] as int,
        #[trigger] s[b] as int,
    ) by {
        if a >= lo && b < hi && b > p {
            assert(ranks_before(keys, s[a] as int, s[p] as int));
            assert(ranks_before(keys, s[p] as int, s[b] as int));
        }
    }
    assert forall|a: int, b: int|
        0 <= a < p + 1 <= b < s.len() implies ranks_before(
        keys,
        #[trigger] s[a] as int,
        #[trigger] s[b] as int,
    ) by {
        if a >= lo && a < p && b < hi {
            assert(ranks_before(keys, s[a] as int, s[p] as int));
            assert(ranks_before(keys, s[p] as int, s[b] as int));
        }
    }
}

/// Orders the positions `0..keys.len()` so that the first `count + 1` of them
/// are the best ranked (smallest key first, earlier position first among
/// equal keys), in ranking order; the rest follow in no particular order.
pub fn select_top(keys: &Vec<u64>, count: usize) -> (order: Vec<usize>)
    requires
        count < keys@.len(),
    ensures
        is_permutation(order@, keys@.len()),
        sorted_between(keys@, order@, 0, count + 1),
        separated(keys@, order@, count + 1),
{
    let n = keys.len();
    let mut order: Vec<usize> = Vec::new();
    let mut i: usize = 0;
    while i < n
        invariant
            i <= n == keys@.len(),
            order@.len() == i,
            forall|k: int| 0 <= k < i ==> #[trigger] order@[k] == k,
        decreases n - i,
    {
        order.push(i);
        i += 1;
    }
    assert forall|k: int| 0 <= k < n implies #[trigger] order_holds(order@, k) by {
        assert(order@[k] == k);
    }
    if n <= SHORT_INPUT {
        sort_window(&mut order, keys, 0, n);
        return order;
    }
    let mut lo: usize = 0;
    let mut hi: usize = n;
    let mut settled = false;
    while !settled
        invariant
            lo <= count < hi <= n == order@.len() == keys@.len(),
            is_permutation(order@, keys@.len()),
            separated(keys@, order@, lo as int),
            separated(keys@, order@, hi as int),
            settled ==> separated(keys@, order@, count + 1),
        decreases hi - lo + (if settled { 0int } else { 1int }),
    {
        let p = partition(&mut order, keys, lo, hi);
        proof {
            lemma_partition_separates(keys@, order@, lo as int, p as int, hi as int);
        }
        if p == count {
            settled = true;
        } else if p < count {
            lo = p + 1;
        } else {
            hi = p;
        }
    }
    sort_window(&mut order, keys, 0, count + 1);
    order
}

/// Reordering a sequence by a permutation of its positions keeps its items.
pub proof fn lemma_reorder_keeps_items<T>(s: Seq<T>, order: Seq<usize>)
    requires
        is_permutation(order, s.len()),
    ensures
        order.map_values(|p: usize| s[p as int]).to_multiset() == s.to_multiset(),
    decreases s.len(),
{
    broadcast use vstd::seq_lib::group_to_multiset_ensures, vstd::multiset::group_multiset_axioms;

    let n = s.len() as int;
    let t = order.map_values(|p: usize| s[p as int]);
    if n == 0 {
        assert(t =~= Seq::<T>::empty());
        assert(s =~= Seq::<T>::empty());
        return;
    }
    assert(order_holds(order, n - 1));
    let w = choose|w: int| 0 <= w < order.len() && order[w] == n - 1;
    let o2 = order.remove(w);
    let s2 = s.drop_last();
    assert forall|i: int| 0 <= i < o2.len() implies #[trigger] o2[i] < s2.len() by {
        let oi = if i < w { i } else { i + 1 };
        assert(o2[i] == order[oi]);
        assert(order[oi] != order[w]);
    }
    assert forall|i: int, j: int|
        0 <= i < o2.len() && 0 <= j < o2.len() && i != j implies #[trigger] o2[i] != #[trigger] o2[j] by {
        let oi = if i < w { i } else { i + 1 };
        let oj = if j < w { j } else { j + 1 };
        assert(o2[i] == order[oi] && o2[j] == order[oj]);
    }
    assert forall|k: int| 0 <= k < s2.len() implies #[trigger] order_holds(o2, k) by {
        assert(order_holds(order, k));
        let v = choose|v: int| 0 <= v < order.len() && order[v] == k;
        let v2 = if v < w { v } else { v - 1 };
        assert(o2[v2] == k);
    }
    lemma_reorder_keeps_items(s2, o2);
    let t2 = o2.map_values(|p: usize| s2[p as int]);
    assert(t2 =~= t.remove(w));
    let x = t[w];
    assert(x == s.last());
    assert(s =~= s2.push(x));
    assert(t.to_multiset().count(x) > 0) by {
        assert(t.contains(x));
    }
    assert(t.to_multiset() =~= t.remove(w).to_multiset().insert(x));
}

/// Rearranges `items` so that its first `count` entries are the `count` items
/// with the smallest keys, in ascending order of key (earlier items first
/// among equal keys), followed by the item with the next smallest key; the
/// items after index `count` are left in no particular order. Each item's key
/// is computed once.
pub fn top_n_by_key<T: Copy, F: Fn(&T) -> u64>(items: &mut [T], count: usize, key: F)
    requires
        count < old(items)@.len(),
        forall|x: &T| #[trigger] key.requires((x,)),
    ensures
        exists|order: Seq<usize>, keys: Seq<u64>|
            {
                &&& is_permutation(order, old(items)@.len())
                &&& keys.len() == old(items)@.len()
                &&& forall|i: int|
                    0 <= i < keys.len() ==> key.ensures((&old(items)@[i],), #[trigger] keys[i])
                &&& sorted_between(keys, order, 0, count + 1)
                &&& separated(keys, order, count + 1)
                &&& final(items)@ == order.map_values(|p: usize| old(items)@[p as int])
            },
        final(items)@.to_multiset() == old(items)@.to_multiset(),
        exists|ranked_keys: Seq<u64>|
            {
                &&& ranked_keys.len() == final(items)@.len()
                &&& forall|i: int|
                    0 <= i < ranked_keys.len() ==> key.ensures(
                        (&final(items)@[i],),
                        #[trigger] ranked_keys[i],
                    )
                &&& forall|i: int, j: int|
                    0 <= i < j <= count ==> #[trigger] ranked_keys[i] <= #[trigger] ranked_keys[j]
                &&& forall|i: int, j: int|
                    0 <= i <= count < j < ranked_keys.len() ==> #[trigger] ranked_keys[i]
                        <= #[trigger] ranked_keys[j]
            },
{
    let n = items.len();
    let ghost initial = items@;
    let mut keys: Vec<u64> = Vec::new();
    let mut snapshot: Vec<T> = Vec::new();
    let mut i: usize = 0;
    while i < n
        invariant
            i <= n == items@.len(),
            items@ == initial,
            keys@.len() == i,
            snapshot@ == initial.take(i as int),
            forall|k: int| 0 <= k < i ==> key.ensures((&initial[k],), #[trigger] keys@[k]),
            forall|x: &T| #[trigger] key.requires((x,)),
        decreases n - i,
    {
        let item = items[i];
        let k = key(&item);
        keys.push(k);
        snapshot.push(item);
        i += 1;
    }
    assert(snapshot@ == initial);
    let order = select_top(&keys, count);
    let mut j: usize = 0;
    while j < n
        invariant
            j <= n == items@.len() == snapshot@.len() == order@.len() == keys@.len(),
            snapshot@ == initial,
            is_permutation(order@, n as nat),
            forall|k: int| 0 <= k < j ==> #[trigger] items@[k] == initial[order@[k] as int],
        decreases n - j,
    {
        items[j] = snapshot[order[j]];
        j += 1;
    }
    assert(items@ == order@.map_values(|p: usize| initial[p as int]));
    proof {
        lemma_reorder_keeps_items(initial, order@);
        let rk = order@.map_values(|p: usize| keys@[p as int]);
        assert forall|i: int| 0 <= i < rk.len() implies key.ensures(
            (&items@[i],),
            #[trigger] rk[i],
        ) by {
            assert(order@[i] < n);
        }
        assert forall|i: int, j: int| 0 <= i < j <= count implies #[trigger] rk[i]
            <= #[trigger] rk[j] by {
            assert(ranks_before(keys@, order@[i] as int, order@[j] as int));
        }
        assert forall|i: int, j: int| 0 <= i <= count < j < rk.len() implies #[trigger] rk[i]
            <= #[trigger] rk[j] by {
            assert(ranks_before(keys@, order@[i] as int, order@[j] as int));
        }
        assert(rk.len() == items@.len());
        assert(exists|ranked_keys: Seq<u64>|
            {
                &&& ranked_keys.len() == items@.len()
                &&& forall|i: int|
                    0 <= i < ranked_keys.len() ==> key.ensures(
                        (&items@[i],),
                        #[trigger] ranked_keys[i],
                    )
                &&& forall|i: int, j: int|
                    0 <= i < j <= count ==> #[trigger] ranked_keys[i] <= #[trigger] ranked_keys[j]
                &&& forall|i: int, j: int|
                    0 <= i <= count < j < ranked_keys.len() ==> #[trigger] ranked_keys[i]
                        <= #[trigger] ranked_keys[j]
            }) by {
            assert(rk.len() == items@.len());
        }
    }
}

} // verus!
