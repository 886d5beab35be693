//! The canonical order of archive entries: keys compared byte by byte in
//! their UTF-8 encoding, equal keys kept in the order they were given.

use vstd::prelude::*;
use vstd::utf8::encode_utf8;

verus! {

/// Whether `a` comes before `b` byte by byte, given that they agree below
/// position `i`: at the first position where they differ `a` holds the
/// smaller byte, or `a` ends first.
pub open spec fn bytes_lt_from(a: Seq<u8>, b: Seq<u8>, i: int) -> bool
    decreases a.len() - i,
{
    if i < 0 || i >= b.len() {
        false
    } else if i >= a.len() {
        true
    } else if a[i] != b[i] {
        a[i] < b[i]
    } else {
        bytes_lt_from(a, b, i + 1)
    }
}

/// Lexicographic order on byte strings.
pub open spec fn bytes_lt(a: Seq<u8>, b: Seq<u8>) -> bool {
    bytes_lt_from(a, b, 0)
}

/// The order of keys: that of their UTF-8 encodings.
pub open spec fn text_lt(x: Seq<char>, y: Seq<char>) -> bool {
    bytes_lt(encode_utf8(x), encode_utf8(y))
}

/// No byte string comes before itself.
pub proof fn lemma_bytes_lt_irreflexive(a: Seq<u8>, i: int)
    ensures
        !bytes_lt_from(a, a, i),
    decreases a.len() - i,
{
    if 0 <= i < a.len() {
        lemma_bytes_lt_irreflexive(a, i + 1);
    }
}

/// Of two byte strings at most one comes before the other.
pub proof fn lemma_bytes_lt_asymmetric(a: Seq<u8>, b: Seq<u8>, i: int)
    requires
        bytes_lt_from(a, b, i),
    ensures
        !bytes_lt_from(b, a, i),
    decreases a.len() - i,
{
    if 0 <= i < a.len() && i < b.len() && a[i] == b[i] {
        lemma_bytes_lt_asymmetric(a, b, i + 1);
    }
}

/// The order of byte strings is transitive.
pub proof fn lemma_bytes_lt_transitive(a: Seq<u8>, b: Seq<u8>, c: Seq<u8>, i: int)
    requires
        bytes_lt_from(a, b, i),
        bytes_lt_from(b, c, i),
    ensures
        bytes_lt_from(a, c, i),
    decreases a.len() - i,
{
    if 0 <= i < a.len() && i < b.len() && i < c.len() && a[i] == b[i] && b[i] == c[i] {
        lemma_bytes_lt_transitive(a, b, c, i + 1);
    }
}

/// Two byte strings that agree below `i`, and of which neither comes before
/// the other from there on, are the same.
pub proof fn lemma_bytes_lt_connected(a: Seq<u8>, b: Seq<u8>, i: int)
    requires
        0 <= i <= a.len(),
        i <= b.len(),
        forall|j: int| 0 <= j < i ==> a[j] == b[j],
        !bytes_lt_from(a, b, i),
        !bytes_lt_from(b, a, i),
    ensures
        a == b,
    decreases a.len() - i,
{
    if i < a.len() && i < b.len() {
        lemma_bytes_lt_connected(a, b, i + 1);
    } else {
        assert(a =~= b);
    }
}

/// No key comes before itself.
pub proof fn lemma_text_lt_irreflexive(x: Seq<char>)
    ensures
        !text_lt(x, x),
{
    lemma_bytes_lt_irreflexive(encode_utf8(x), 0);
}

/// Of two keys at most one comes before the other.
pub proof fn lemma_text_lt_asymmetric(x: Seq<char>, y: Seq<char>)
    requires
        text_lt(x, y),
    ensures
        !text_lt(y, x),
{
    lemma_bytes_lt_asymmetric(encode_utf8(x), encode_utf8(y), 0);
}

/// The order of keys is transitive.
pub proof fn lemma_text_lt_transitive(x: Seq<char>, y: Seq<char>, z: Seq<char>)
    requires
        text_lt(x, y),
        text_lt(y, z),
    ensures
        text_lt(x, z),
{
    lemma_bytes_lt_transitive(encode_utf8(x), encode_utf8(y), encode_utf8(z), 0);
}

/// Two keys of which neither comes before the other are the same key.
pub proof fn lemma_text_lt_connected(x: Seq<char>, y: Seq<char>)
    requires
        !text_lt(x, y),
        !text_lt(y, x),
    ensures
        x == y,
{
    lemma_bytes_lt_connected(encode_utf8(x), encode_utf8(y), 0);
    vstd::utf8::encode_utf8_decode_utf8(x);
    vstd::utf8::encode_utf8_decode_utf8(y);
}

/// Compares two byte strings lexicographically.
pub fn bytes_before(a: &[u8], b: &[u8]) -> (before: bool)
    ensures
        before == bytes_lt(a@, b@),
{
    let mut i: usize = 0;
    while i < a.len() && i < b.len()
        invariant
            i <= a@.len(),
            i <= b@.len(),
            bytes_lt(a@, b@) == bytes_lt_from(a@, b@, i as int),
        decreases a@.len() - i,
    {
        if a[i] != b[i] {
            return a[i] < b[i];
        }
        i = i + 1;
    }
    i < b.len()
}

/// Whether the key `a` comes before the key `b`.
pub fn text_before(a: &str, b: &str) -> (before: bool)
    ensures
        before == text_lt(a@, b@),
{
    bytes_before(a.as_bytes(), b.as_bytes())
}

/// Whether two texts hold the same characters.
pub fn same_text(a: &str, b: &str) -> (same: bool)
    ensures
        same == (a@ == b@),
{
    let x = a.as_bytes();
    let y = b.as_bytes();
    proof {
        vstd::utf8::encode_utf8_decode_utf8(a@);
        vstd::utf8::encode_utf8_decode_utf8(b@);
    }
    if x.len() != y.len() {
        return false;
    }
    let mut i: usize = 0;
    while i < x.len()
        invariant
            i <= x@.len(),
            x@.len() == y@.len(),
            x@ == encode_utf8(a@),
            y@ == encode_utf8(b@),
            forall|j: int| 0 <= j < i ==> x@[j] == y@[j],
        decreases x@.len() - i,
    {
        if x[i] != y[i] {
            return false;
        }
        i = i + 1;
    }
    assert(x@ =~= y@);
    true
}

/// Whether entry `i` goes before entry `j`: its key comes first, or the keys
/// are the same and `i` was given first.
pub open spec fn ranks_before(keys: Seq<Seq<char>>, i: int, j: int) -> bool {
    text_lt(keys[i], keys[j]) || (keys[i] == keys[j] && i < j)
}

/// The positions `0..n` in rising order.
pub open spec fn positions(n: nat) -> Seq<usize> {
    Seq::new(n, |i: int| i as usize)
}

/// Whether `order` lists every position of `keys` once, each entry before
/// all those that it goes before.
pub open spec fn is_stable_order(keys: Seq<Seq<char>>, order: Seq<usize>) -> bool {
    &&& order.len() == keys.len()
    &&& order.to_multiset() == positions(keys.len()).to_multiset()
    &&& forall|k: int| 0 <= k < order.len() ==> (#[trigger] order[k] as int) < keys.len()
    &&& forall|a: int, b: int|
        0 <= a < b < order.len() ==> ranks_before(keys, order[a] as int, order[b] as int)
}

/// Of two positions at most one goes before the other, and none before
/// itself.
pub proof fn lemma_ranks_asymmetric(keys: Seq<Seq<char>>, i: int, j: int)
    requires
        ranks_before(keys, i, j),
    ensures
        !ranks_before(keys, j, i),
        i != j,
{
    lemma_text_lt_irreflexive(keys[i]);
    if text_lt(keys[i], keys[j]) {
        lemma_text_lt_asymmetric(keys[i], keys[j]);
    }
}

/// Two sequences that rise strictly in an asymmetric relation and hold the
/// same elements are the same sequence.
pub proof fn lemma_rising_unique<T>(x: Seq<T>, y: Seq<T>, lt: spec_fn(T, T) -> bool)
    requires
        forall|i: int, j: int| 0 <= i < j < x.len() ==> #[trigger] lt(x[i], x[j]),
        forall|i: int, j: int| 0 <= i < j < y.len() ==> #[trigger] lt(y[i], y[j]),
        forall|a: T, b: T| #[trigger] lt(a, b) ==> !lt(b, a),
        forall|e: T| x.contains(e) <==> y.contains(e),
    ensures
        x == y,
    decreases x.len(),
{
    if x.len() == 0 {
        if y.len() > 0 {
            assert(y.contains(y[0]));
        }
        assert(x =~= y);
    } else {
        let xl = x.last();
        assert(x.contains(xl));
        assert(y.contains(xl));
        let yl = y.last();
        assert(y.contains(yl));
        assert(x.contains(yl));
        let j = choose|j: int| 0 <= j < y.len() && y[j] == xl;
        let i = choose|i: int| 0 <= i < x.len() && x[i] == yl;
        if j < y.len() - 1 {
            assert(lt(y[j], y[y.len() - 1]));
            if i < x.len() - 1 {
                assert(lt(x[i], x[x.len() - 1]));
            }
        }
        assert(xl == yl);
        let xs = x.drop_last();
        let ys = y.drop_last();
        assert forall|e: T| xs.contains(e) <==> ys.contains(e) by {
            if xs.contains(e) {
                let k = choose|k: int| 0 <= k < xs.len() && xs[k] == e;
                assert(x[k] == e);
                assert(lt(x[k], x[x.len() - 1]));
                assert(x.contains(e));
                let m = choose|m: int| 0 <= m < y.len() && y[m] == e;
                if m == y.len() - 1 {
                    assert(lt(e, e));
                }
                assert(ys[m] == e);
            }
            if ys.contains(e) {
                let k = choose|k: int| 0 <= k < ys.len() && ys[k] == e;
                assert(y[k] == e);
                assert(lt(y[k], y[y.len() - 1]));
                assert(y.contains(e));
                let m = choose|m: int| 0 <= m < x.len() && x[m] == e;
                if m == x.len() - 1 {
                    assert(lt(e, e));
                }
                assert(xs[m] == e);
            }
        }
        assert forall|i: int, j: int| 0 <= i < j < xs.len() implies #[trigger] lt(xs[i], xs[j]) by {
            assert(lt(x[i], x[j]));
        }
        assert forall|i: int, j: int| 0 <= i < j < ys.len() implies #[trigger] lt(ys[i], ys[j]) by {
            assert(lt(y[i], y[j]));
        }
        lemma_rising_unique(xs, ys, lt);
        assert(x =~= xs.push(xl));
        assert(y =~= ys.push(yl));
    }
}

/// The stable order of a sequence of keys is unique.
pub proof fn lemma_stable_order_unique(keys: Seq<Seq<char>>, p: Seq<usize>, q: Seq<usize>)
    requires
        is_stable_order(keys, p),
        is_stable_order(keys, q),
    ensures
        p == q,
{
    broadcast use vstd::seq_lib::group_to_multiset_ensures;

    let lt = |i: usize, j: usize| ranks_before(keys, i as int, j as int);
    assert forall|a: usize, b: usize| #[trigger] lt(a, b) implies !lt(b, a) by {
        lemma_ranks_asymmetric(keys, a as int, b as int);
    }
    assert forall|e: usize| p.contains(e) <==> q.contains(e) by {
        assert(p.contains(e) <==> p.to_multiset().count(e) > 0);
        assert(q.contains(e) <==> q.to_multiset().count(e) > 0);
    }
    assert forall|i: int, j: int| 0 <= i < j < p.len() implies #[trigger] lt(p[i], p[j]) by {
        assert(ranks_before(keys, p[i] as int, p[j] as int));
    }
    assert forall|i: int, j: int| 0 <= i < j < q.len() implies #[trigger] lt(q[i], q[j]) by {
        assert(ranks_before(keys, q[i] as int, q[j] as int));
    }
    lemma_rising_unique(p, q, lt);
}

/// The first position from `k` on whose entry has a key after that of
/// entry `i`, or the length of the order where there is none.
pub open spec fn first_after(keys: Seq<Seq<char>>, order: Seq<usize>, i: int, k: int) -> int
    decreases order.len() - k,
{
    if k < 0 || k >= order.len() {
        order.len() as int
    } else if text_lt(keys[i], keys[order[k] as int]) {
        k
    } else {
        first_after(keys, order, i, k + 1)
    }
}

proof fn lemma_first_after(keys: Seq<Seq<char>>, order: Seq<usize>, i: int, k: int)
    requires
        0 <= k <= order.len(),
    ensures
        k <= first_after(keys, order, i, k) <= order.len(),
        forall|j: int|
            k <= j < first_after(keys, order, i, k) ==> !text_lt(
                keys[i],
                keys[#[trigger] order[j] as int],
            ),
        first_after(keys, order, i, k) < order.len() ==> text_lt(
            keys[i],
            keys[order[first_after(keys, order, i, k)] as int],
        ),
    decreases order.len() - k,
{
    if k < order.len() && !text_lt(keys[i], keys[order[k] as int]) {
        lemma_first_after(keys, order, i, k + 1);
    }
}

/// Every list of keys has a stable order.
pub proof fn lemma_stable_order_exists(keys: Seq<Seq<char>>)
    requires
        keys.len() <= usize::MAX,
    ensures
        exists|order: Seq<usize>| is_stable_order(keys, order),
    decreases keys.len(),
{
    broadcast use vstd::seq_lib::group_to_multiset_ensures;

    if keys.len() == 0 {
        let order = Seq::<usize>::empty();
        assert(positions(0) =~= order);
        assert(is_stable_order(keys, order));
    } else {
        let n = keys.len() - 1;
        let front = keys.drop_last();
        lemma_stable_order_exists(front);
        let prev = choose|o: Seq<usize>| is_stable_order(front, o);
        let p = first_after(keys, prev, n, 0);
        lemma_first_after(keys, prev, n, 0);
        let order = prev.insert(p, n as usize);
        vstd::seq_lib::to_multiset_insert(prev, p, n as usize);
        vstd::seq_lib::to_multiset_build(positions(n as nat), n as usize);
        assert(positions(keys.len()) =~= positions(n as nat).push(n as usize));
        assert forall|k: int| 0 <= k < order.len() implies (#[trigger] order[k] as int)
            < keys.len() by {
            if k < p {
                assert(order[k] == prev[k]);
            } else if k > p {
                assert(order[k] == prev[k - 1]);
            }
        }
        assert forall|a: int, b: int| 0 <= a < b < order.len() implies ranks_before(
            keys,
            order[a] as int,
            order[b] as int,
        ) by {
            if b < p {
                assert(order[a] == prev[a] && order[b] == prev[b]);
                assert(ranks_before(front, prev[a] as int, prev[b] as int));
            } else if b == p {
                assert(order[a] == prev[a]);
                assert(!text_lt(keys[n], keys[prev[a] as int]));
                if !text_lt(keys[prev[a] as int], keys[n]) {
                    lemma_text_lt_connected(keys[prev[a] as int], keys[n]);
                }
            } else if a < p {
                assert(order[a] == prev[a] && order[b] == prev[b - 1]);
                assert(ranks_before(front, prev[a] as int, prev[b - 1] as int));
            } else if a == p {
                assert(order[b] == prev[b - 1]);
                assert(text_lt(keys[n], keys[prev[p] as int]));
                if b - 1 > p {
                    assert(ranks_before(front, prev[p] as int, prev[b - 1] as int));
                    if text_lt(keys[prev[p] as int], keys[prev[b - 1] as int]) {
                        lemma_text_lt_transitive(
                            keys[n],
                            keys[prev[p] as int],
                            keys[prev[b - 1] as int],
                        );
                    }
                }
            } else {
                assert(order[a] == prev[a - 1] && order[b] == prev[b - 1]);
                assert(ranks_before(front, prev[a - 1] as int, prev[b - 1] as int));
            }
        }
        assert(is_stable_order(keys, order));
    }
}

/// The stable order of a list of keys: every position once, an entry before
/// another where its key comes first or, for the same key, where it was
/// given first.
pub open spec fn stable_order_of(keys: Seq<Seq<char>>) -> Seq<usize> {
    choose|order: Seq<usize>| is_stable_order(keys, order)
}

/// The stable order of a list of keys is a stable order of it.
pub proof fn lemma_stable_order_of(keys: Seq<Seq<char>>)
    requires
        keys.len() <= usize::MAX,
    ensures
        is_stable_order(keys, stable_order_of(keys)),
{
    lemma_stable_order_exists(keys);
}

/// The views of a list of keys.
pub open spec fn key_views(keys: Seq<&str>) -> Seq<Seq<char>> {
    Seq::new(keys.len(), |i: int| keys[i]@)
}

/// Sorts the positions of `keys` into their stable order.
pub fn stable_order(keys: &Vec<&str>) -> (order: Vec<usize>)
    ensures
        order@ == stable_order_of(key_views(keys@)),
        is_stable_order(key_views(keys@), order@),
{
    broadcast use vstd::seq_lib::group_to_multiset_ensures;

    let ghost kv = key_views(keys@);
    let n = keys.len();
    let mut order: Vec<usize> = Vec::new();
    let mut i: usize = 0;
    assert(positions(0) =~= Seq::<usize>::empty());
    assert(order@ =~= positions(0));
    while i < n
        invariant
            i <= n,
            n == keys@.len(),
            kv == key_views(keys@),
            order@.len() == i,
            order@.to_multiset() == positions(i as nat).to_multiset(),
            forall|k: int| 0 <= k < i ==> (#[trigger] order@[k] as int) < i,
            forall|a: int, b: int|
                0 <= a < b < i ==> ranks_before(kv, order@[a] as int, order@[b] as int),
        decreases n - i,
    {
        let mut lo: usize = 0;
        let mut hi: usize = i;
        while lo < hi
            invariant
                lo <= hi <= i < n,
                n == keys@.len(),
                kv == key_views(keys@),
                order@.len() == i,
                forall|k: int| 0 <= k < i ==> (#[trigger] order@[k] as int) < i,
                forall|a: int, b: int|
                    0 <= a < b < i ==> ranks_before(kv, order@[a] as int, order@[b] as int),
                forall|k: int|
                    0 <= k < lo ==> !text_lt(kv[i as int], kv[#[trigger] order@[k] as int]),
                forall|k: int|
                    hi <= k < i ==> text_lt(kv[i as int], kv[#[trigger] order@[k] as int]),
            decreases hi - lo,
        {
            let mid = lo + (hi - lo) / 2;
            if text_before(keys[i], keys[order[mid]]) {
                proof {
                    assert forall|k: int| mid <= k < i implies text_lt(
                        kv[i as int],
                        kv[#[trigger] order@[k] as int],
                    ) by {
                        if k > mid {
                            assert(ranks_before(kv, order@[mid as int] as int, order@[k] as int));
                            if text_lt(kv[order@[mid as int] as int], kv[order@[k] as int]) {
                                lemma_text_lt_transitive(
                                    kv[i as int],
                                    kv[order@[mid as int] as int],
                                    kv[order@[k] as int],
                                );
                            }
                        }
                    }
                }
                hi = mid;
            } else {
                proof {
                    assert forall|k: int| 0 <= k < mid + 1 implies !text_lt(
                        kv[i as int],
                        kv[#[trigger] order@[k] as int],
                    ) by {
                        if k < mid && text_lt(kv[i as int], kv[order@[k] as int]) {
                            assert(ranks_before(kv, order@[k] as int, order@[mid as int] as int));
                            if text_lt(kv[order@[k] as int], kv[order@[mid as int] as int]) {
                                lemma_text_lt_transitive(
                                    kv[i as int],
                                    kv[order@[k] as int],
                                    kv[order@[mid as int] as int],
                                );
                            }
                        }
                    }
                }
                lo = mid + 1;
            }
        }
        let p = lo;
        let ghost before = order@;
        order.insert(p, i);
        proof {
            vstd::seq_lib::to_multiset_insert(before, p as int, i);
            vstd::seq_lib::to_multiset_build(positions(i as nat), i);
            assert(positions((i + 1) as nat) =~= positions(i as nat).push(i));
            assert forall|a: int, b: int| 0 <= a < b < i + 1 implies ranks_before(
                kv,
                order@[a] as int,
                order@[b] as int,
            ) by {
                if b < p {
                    assert(order@[a] == before[a] && order@[b] == before[b]);
                } else if b == p {
                    assert(order@[a] == before[a]);
                    let earlier = before[a] as int;
                    assert(!text_lt(kv[i as int], kv[earlier]));
                    if !text_lt(kv[earlier], kv[i as int]) {
                        lemma_text_lt_connected(kv[earlier], kv[i as int]);
                    }
                } else if a < p {
                    assert(order@[a] == before[a] && order@[b] == before[b - 1]);
                } else if a == p {
                    assert(order@[b] == before[b - 1]);
                } else {
                    assert(order@[a] == before[a - 1] && order@[b] == before[b - 1]);
                }
            }
            assert forall|k: int| 0 <= k < i + 1 implies (#[trigger] order@[k] as int) < i + 1 by {
                if k < p {
                    assert(order@[k] == before[k]);
                } else if k > p {
                    assert(order@[k] == before[k - 1]);
                }
            }
        }
        i = i + 1;
    }
    proof {
        assert(is_stable_order(kv, order@));
        lemma_stable_order_unique(kv, order@, stable_order_of(kv));
    }
    order
}

/// The entries of `items` in the given order.
pub open spec fn arranged<T>(items: Seq<T>, order: Seq<usize>) -> Seq<T> {
    Seq::new(order.len(), |k: int| items[order[k] as int])
}

/// The sum of the first `n` costs.
pub open spec fn cost_sum(costs: Seq<nat>, n: int) -> nat
    decreases n,
{
    if n <= 0 {
        0
    } else {
        cost_sum(costs, n - 1) + costs[n - 1]
    }
}

/// The sum of the costs of the first `k` entries in the given order.
pub open spec fn cost_along(costs: Seq<nat>, order: Seq<usize>, k: int) -> nat
    decreases k,
{
    if k <= 0 {
        0
    } else {
        cost_along(costs, order, k - 1) + costs[order[k - 1] as int]
    }
}

/// The costs of the first entries in an order never exceed those of more.
pub proof fn lemma_cost_along_rises(costs: Seq<nat>, order: Seq<usize>, k: int, n: int)
    requires
        0 <= k <= n,
    ensures
        cost_along(costs, order, k) <= cost_along(costs, order, n),
    decreases n - k,
{
    if k < n {
        lemma_cost_along_rises(costs, order, k, n - 1);
    }
}

proof fn lemma_cost_along_fold(costs: Seq<nat>, order: Seq<usize>, k: int)
    requires
        0 <= k <= order.len(),
    ensures
        cost_along(costs, order, k) == order.take(k).fold_left(
            0nat,
            |acc: nat, i: usize| acc + costs[i as int],
        ),
    decreases k,
{
    if k > 0 {
        lemma_cost_along_fold(costs, order, k - 1);
        assert(order.take(k).drop_last() =~= order.take(k - 1));
    }
}

proof fn lemma_cost_along_positions(costs: Seq<nat>, n: nat, k: int)
    requires
        0 <= k <= n <= usize::MAX,
    ensures
        cost_along(costs, positions(n), k) == cost_sum(costs, k),
    decreases k,
{
    if k > 0 {
        lemma_cost_along_positions(costs, n, k - 1);
    }
}

/// Summed along any order that lists every position once, the costs come to
/// their plain sum.
pub proof fn lemma_cost_along_order(costs: Seq<nat>, order: Seq<usize>)
    requires
        order.len() == costs.len() <= usize::MAX,
        order.to_multiset() == positions(costs.len()).to_multiset(),
    ensures
        cost_along(costs, order, costs.len() as int) == cost_sum(costs, costs.len() as int),
{
    let n = costs.len();
    let f = |acc: nat, i: usize| acc + costs[i as int];
    lemma_cost_along_fold(costs, order, n as int);
    lemma_cost_along_fold(costs, positions(n), n as int);
    lemma_cost_along_positions(costs, n, n as int);
    assert(order.take(n as int) =~= order);
    assert(positions(n).take(n as int) =~= positions(n));
    assert(vstd::seq_lib::commutative_foldl(f));
    vstd::seq_lib::lemma_fold_left_permutation(order, positions(n), f, 0nat);
}

/// In an order that lists every position once, the entries are those that
/// were given.
pub proof fn lemma_arranged_elements<T>(items: Seq<T>, order: Seq<usize>)
    requires
        order.len() == items.len() <= usize::MAX,
        order.to_multiset() == positions(items.len()).to_multiset(),
        forall|k: int| 0 <= k < order.len() ==> (#[trigger] order[k] as int) < items.len(),
    ensures
        forall|e: T| arranged(items, order).contains(e) <==> items.contains(e),
{
    broadcast use vstd::seq_lib::group_to_multiset_ensures;

    let sorted = arranged(items, order);
    assert forall|e: T| sorted.contains(e) <==> items.contains(e) by {
        if sorted.contains(e) {
            let k = choose|k: int| 0 <= k < sorted.len() && sorted[k] == e;
            assert(items[order[k] as int] == e);
        }
        if items.contains(e) {
            let i = choose|i: int| 0 <= i < items.len() && items[i] == e;
            assert(positions(items.len())[i] == i as usize);
            assert(positions(items.len()).contains(i as usize));
            assert(order.to_multiset().count(i as usize) > 0);
            assert(order.contains(i as usize));
            let k = choose|k: int| 0 <= k < order.len() && order[k] == i as usize;
            assert(sorted[k] == e);
        }
    }
}

/// Where no key occurs twice, the keys rise strictly along the stable order.
pub proof fn lemma_stable_order_rises(keys: Seq<Seq<char>>, order: Seq<usize>, a: int, b: int)
    requires
        is_stable_order(keys, order),
        forall|i: int, j: int| 0 <= i < j < keys.len() ==> keys[i] != keys[j],
        0 <= a < b < order.len(),
    ensures
        text_lt(keys[order[a] as int], keys[order[b] as int]),
{
    assert(ranks_before(keys, order[a] as int, order[b] as int));
}

/// Whether no key occurs twice.
pub open spec fn all_distinct(keys: Seq<Seq<char>>) -> bool {
    forall|i: int, j: int| 0 <= i < j < keys.len() ==> keys[i] != keys[j]
}

proof fn lemma_neighbours_rise(keys: Seq<Seq<char>>, order: Seq<usize>, a: int, b: int)
    requires
        is_stable_order(keys, order),
        forall|k: int|
            1 <= k < order.len() ==> keys[order[k - 1] as int] != keys[#[trigger] order[k] as int],
        0 <= a < b < order.len(),
    ensures
        text_lt(keys[order[a] as int], keys[order[b] as int]),
    decreases b - a,
{
    assert(ranks_before(keys, order[b - 1] as int, order[b] as int));
    if a < b - 1 {
        lemma_neighbours_rise(keys, order, a, b - 1);
        lemma_text_lt_transitive(
            keys[order[a] as int],
            keys[order[b - 1] as int],
            keys[order[b] as int],
        );
    }
}

proof fn lemma_neighbours_distinct(keys: Seq<Seq<char>>, order: Seq<usize>)
    requires
        keys.len() <= usize::MAX,
        is_stable_order(keys, order),
        forall|k: int|
            1 <= k < order.len() ==> keys[order[k - 1] as int] != keys[#[trigger] order[k] as int],
    ensures
        all_distinct(keys),
{
    broadcast use vstd::seq_lib::group_to_multiset_ensures;

    assert forall|i: int, j: int| 0 <= i < j < keys.len() implies keys[i] != keys[j] by {
        assert(positions(keys.len())[i] == i as usize);
        assert(positions(keys.len())[j] == j as usize);
        assert(positions(keys.len()).contains(i as usize));
        assert(positions(keys.len()).contains(j as usize));
        assert(order.to_multiset().count(i as usize) > 0);
        assert(order.to_multiset().count(j as usize) > 0);
        assert(order.contains(i as usize));
        assert(order.contains(j as usize));
        let a = choose|a: int| 0 <= a < order.len() && order[a] == i as usize;
        let b = choose|b: int| 0 <= b < order.len() && order[b] == j as usize;
        if a < b {
            lemma_neighbours_rise(keys, order, a, b);
            lemma_text_lt_irreflexive(keys[i]);
        } else if b < a {
            lemma_neighbours_rise(keys, order, b, a);
            lemma_text_lt_irreflexive(keys[i]);
        }
    }
}

/// Tells whether no key occurs twice.
pub fn keys_distinct(keys: &Vec<&str>) -> (distinct: bool)
    ensures
        distinct == all_distinct(key_views(keys@)),
{
    let ghost kv = key_views(keys@);
    let order = stable_order(keys);
    let mut k: usize = 1;
    while k < order.len()
        invariant
            1 <= k,
            kv == key_views(keys@),
            is_stable_order(kv, order@),
            forall|m: int|
                1 <= m < k ==> kv[order@[m - 1] as int] != kv[#[trigger] order@[m] as int],
        decreases order@.len() - k,
    {
        if same_text(keys[order[k - 1]], keys[order[k]]) {
            proof {
                let i = order@[k - 1] as int;
                let j = order@[k as int] as int;
                assert(ranks_before(kv, i, j));
                lemma_ranks_asymmetric(kv, i, j);
                assert(i < j);
                assert(kv[i] == kv[j]);
            }
            return false;
        }
        k = k + 1;
    }
    proof {
        lemma_neighbours_distinct(kv, order@);
    }
    true
}

} // verus!
