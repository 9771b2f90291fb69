//! Stable ordering by keys: the order in which strategies and presets are
//! listed and tried. A key is a sequence of numbers compared
//! lexicographically, which is how Rust compares tuples such as
//! `(u8, u32, String)` once each character is taken by its code point.

use vstd::prelude::*;

verus! {

/// `a` comes strictly before `b` in lexicographic order.
pub open spec fn lex_lt(a: Seq<u32>, b: Seq<u32>) -> bool
    decreases a.len(),
{
    if b.len() == 0 {
        false
    } else if a.len() == 0 {
        true
    } else if a[0] < b[0] {
        true
    } else if a[0] > b[0] {
        false
    } else {
        lex_lt(a.drop_first(), b.drop_first())
    }
}

/// The views of a sequence of keys.
pub open spec fn keys_view(v: Seq<Vec<u32>>) -> Seq<Seq<u32>> {
    v.map_values(|k: Vec<u32>| k@)
}

/// The position at which a new element with key `k` goes into a list whose
/// keys are `keys`, scanning from index `i`: before the first key greater
/// than `k`, so after every equal key.
pub open spec fn ins_pos_from(keys: Seq<Seq<u32>>, k: Seq<u32>, i: int) -> int
    decreases keys.len() - i,
{
    if i < 0 || i >= keys.len() {
        keys.len() as int
    } else if lex_lt(k, keys[i]) {
        i
    } else {
        ins_pos_from(keys, k, i + 1)
    }
}

pub open spec fn ins_pos(keys: Seq<Seq<u32>>, k: Seq<u32>) -> int {
    ins_pos_from(keys, k, 0)
}

/// The keys after a stable insertion sort.
pub open spec fn sorted_keys(keys: Seq<Seq<u32>>) -> Seq<Seq<u32>>
    decreases keys.len(),
{
    if keys.len() == 0 {
        Seq::empty()
    } else {
        let sk = sorted_keys(keys.drop_last());
        sk.insert(ins_pos(sk, keys.last()), keys.last())
    }
}

/// `items`, where `items[i]` has key `keys[i]`, stably sorted by key:
/// each element in turn is inserted after every element whose key is not
/// greater than its own.
pub open spec fn sorted_by_keys<T>(items: Seq<T>, keys: Seq<Seq<u32>>) -> Seq<T>
    decreases items.len(),
{
    if items.len() == 0 {
        Seq::empty()
    } else {
        let sk = sorted_keys(keys.drop_last());
        sorted_by_keys(items.drop_last(), keys.drop_last()).insert(
            ins_pos(sk, keys.last()),
            items.last(),
        )
    }
}

pub proof fn lemma_ins_pos_bounds(keys: Seq<Seq<u32>>, k: Seq<u32>, i: int)
    requires
        0 <= i <= keys.len(),
    ensures
        i <= ins_pos_from(keys, k, i) <= keys.len(),
    decreases keys.len() - i,
{
    if i < keys.len() && !lex_lt(k, keys[i]) {
        lemma_ins_pos_bounds(keys, k, i + 1);
    }
}

pub proof fn lemma_sorted_len<T>(items: Seq<T>, keys: Seq<Seq<u32>>)
    requires
        items.len() == keys.len(),
    ensures
        sorted_keys(keys).len() == keys.len(),
        sorted_by_keys(items, keys).len() == items.len(),
    decreases items.len(),
{
    if items.len() > 0 {
        lemma_sorted_len(items.drop_last(), keys.drop_last());
        lemma_ins_pos_bounds(sorted_keys(keys.drop_last()), keys.last(), 0);
    }
}

/// Sorting commutes with taking a view of each element.
pub proof fn lemma_sorted_map<A, B>(items: Seq<A>, keys: Seq<Seq<u32>>, f: spec_fn(A) -> B)
    requires
        items.len() == keys.len(),
    ensures
        sorted_by_keys(items.map_values(f), keys) == sorted_by_keys(items, keys).map_values(f),
    decreases items.len(),
{
    if items.len() > 0 {
        let prev = items.drop_last();
        assert(items.map_values(f).drop_last() =~= prev.map_values(f));
        lemma_sorted_map(prev, keys.drop_last(), f);
        lemma_sorted_len(prev, keys.drop_last());
        let sk = sorted_keys(keys.drop_last());
        lemma_ins_pos_bounds(sk, keys.last(), 0);
        let p = ins_pos(sk, keys.last());
        let sp = sorted_by_keys(prev, keys.drop_last());
        assert(sp.insert(p, items.last()).map_values(f) =~= sp.map_values(f).insert(
            p,
            f(items.last()),
        ));
    }
}

/// Whether `a` comes strictly before `b`.
pub fn key_lt(a: &Vec<u32>, b: &Vec<u32>) -> (res: bool)
    ensures
        res == lex_lt(a@, b@),
{
    let mut i: usize = 0;
    assert(a@.subrange(0, a@.len() as int) =~= a@);
    assert(b@.subrange(0, b@.len() as int) =~= b@);
    while i < a.len() && i < b.len() && a[i] == b[i]
        invariant
            i <= a.len(),
            i <= b.len(),
            lex_lt(a@, b@) == lex_lt(a@.subrange(i as int, a@.len() as int), b@.subrange(i as int, b@.len() as int)),
        decreases a.len() - i,
    {
        assert(a@.subrange(i as int, a@.len() as int).drop_first() =~= a@.subrange(i + 1, a@.len() as int));
        assert(b@.subrange(i as int, b@.len() as int).drop_first() =~= b@.subrange(i + 1, b@.len() as int));
        i += 1;
    }
    if i == b.len() {
        false
    } else if i == a.len() {
        true
    } else {
        a[i] < b[i]
    }
}

/// Sorts `items` stably by the matching `keys`.
pub fn sort_by_keys<T>(items: Vec<T>, keys: &Vec<Vec<u32>>) -> (res: Vec<T>)
    requires
        items.len() == keys.len(),
    ensures
        res@ == sorted_by_keys(items@, keys_view(keys@)),
{
    let ghost all_items = items@;
    let ghost all_keys = keys_view(keys@);
    let mut out: Vec<T> = Vec::new();
    let mut out_keys: Vec<Vec<u32>> = Vec::new();
    let n = items.len();
    let mut i: usize = 0;
    proof {
        assert(all_items.take(0) =~= Seq::<T>::empty());
        assert(all_keys.take(0) =~= Seq::<Seq<u32>>::empty());
    }
    for item in it: items.into_iter()
        invariant
            n == keys.len(),
            n == all_items.len(),
            it.seq() == all_items,
            i == it.index(),
            all_keys == keys_view(keys@),
            out@ == sorted_by_keys(all_items.take(i as int), all_keys.take(i as int)),
            keys_view(out_keys@) == sorted_keys(all_keys.take(i as int)),
            out_keys.len() == i,
    {
        let k = &keys[i];
        let mut p: usize = 0;
        while p < out_keys.len() && !key_lt(k, &out_keys[p])
            invariant
                p <= out_keys.len(),
                ins_pos(keys_view(out_keys@), k@) == ins_pos_from(keys_view(out_keys@), k@, p as int),
            decreases out_keys.len() - p,
        {
            p += 1;
        }
        proof {
            lemma_sorted_len(all_items.take(i as int), all_keys.take(i as int));
            lemma_ins_pos_bounds(keys_view(out_keys@), k@, p as int);
            assert(all_items.take(i + 1).drop_last() =~= all_items.take(i as int));
            assert(all_keys.take(i + 1).drop_last() =~= all_keys.take(i as int));
            assert(all_keys.take(i + 1).last() == k@);
            assert(all_items.take(i + 1).last() == item);
        }
        let kc = copy_key(k);
        proof {
            assert(keys_view(out_keys@.insert(p as int, kc)) =~= keys_view(out_keys@).insert(p as int, k@));
        }
        out_keys.insert(p, kc);
        out.insert(p, item);
        i += 1;
    }
    assert(all_items.take(n as int) =~= all_items);
    assert(all_keys.take(n as int) =~= all_keys);
    out
}

/// A copy of a key.
pub fn copy_key(k: &Vec<u32>) -> (res: Vec<u32>)
    ensures
        res@ == k@,
{
    let mut out: Vec<u32> = Vec::new();
    let mut i: usize = 0;
    while i < k.len()
        invariant
            i <= k.len(),
            out@ == k@.take(i as int),
        decreases k.len() - i,
    {
        out.push(k[i]);
        i += 1;
        assert(out@ == k@.take(i as int));
    }
    assert(k@.take(k@.len() as int) =~= k@);
    out
}

/// The position at which a new element with key `k` goes into a list sorted
/// in descending order, scanning from `i`: before the first key smaller
/// than `k`, so after every equal key.
pub open spec fn ins_pos_desc_from(keys: Seq<Seq<u32>>, k: Seq<u32>, i: int) -> int
    decreases keys.len() - i,
{
    if i < 0 || i >= keys.len() {
        keys.len() as int
    } else if lex_lt(keys[i], k) {
        i
    } else {
        ins_pos_desc_from(keys, k, i + 1)
    }
}

/// The keys after a stable insertion sort in descending order.
pub open spec fn sorted_desc_keys(keys: Seq<Seq<u32>>) -> Seq<Seq<u32>>
    decreases keys.len(),
{
    if keys.len() == 0 {
        Seq::empty()
    } else {
        let sk = sorted_desc_keys(keys.drop_last());
        sk.insert(ins_pos_desc_from(sk, keys.last(), 0), keys.last())
    }
}

/// `items` stably sorted by key in descending order.
pub open spec fn sorted_desc_by_keys<T>(items: Seq<T>, keys: Seq<Seq<u32>>) -> Seq<T>
    decreases items.len(),
{
    if items.len() == 0 {
        Seq::empty()
    } else {
        let sk = sorted_desc_keys(keys.drop_last());
        sorted_desc_by_keys(items.drop_last(), keys.drop_last()).insert(
            ins_pos_desc_from(sk, keys.last(), 0),
            items.last(),
        )
    }
}

pub proof fn lemma_ins_pos_desc_bounds(keys: Seq<Seq<u32>>, k: Seq<u32>, i: int)
    requires
        0 <= i <= keys.len(),
    ensures
        i <= ins_pos_desc_from(keys, k, i) <= keys.len(),
    decreases keys.len() - i,
{
    if i < keys.len() && !lex_lt(keys[i], k) {
        lemma_ins_pos_desc_bounds(keys, k, i + 1);
    }
}

pub proof fn lemma_sorted_desc_len<T>(items: Seq<T>, keys: Seq<Seq<u32>>)
    requires
        items.len() == keys.len(),
    ensures
        sorted_desc_keys(keys).len() == keys.len(),
        sorted_desc_by_keys(items, keys).len() == items.len(),
    decreases items.len(),
{
    if items.len() > 0 {
        lemma_sorted_desc_len(items.drop_last(), keys.drop_last());
        lemma_ins_pos_desc_bounds(sorted_desc_keys(keys.drop_last()), keys.last(), 0);
    }
}

/// Sorts `items` stably by the matching `keys`, greatest first.
pub fn sort_desc_by_keys<T>(items: Vec<T>, keys: &Vec<Vec<u32>>) -> (res: Vec<T>)
    requires
        items.len() == keys.len(),
    ensures
        res@ == sorted_desc_by_keys(items@, keys_view(keys@)),
{
    let ghost all_items = items@;
    let ghost all_keys = keys_view(keys@);
    let mut out: Vec<T> = Vec::new();
    let mut out_keys: Vec<Vec<u32>> = Vec::new();
    let n = items.len();
    let mut i: usize = 0;
    proof {
        assert(all_items.take(0) =~= Seq::<T>::empty());
        assert(all_keys.take(0) =~= Seq::<Seq<u32>>::empty());
    }
    for item in it: items.into_iter()
        invariant
            n == keys.len(),
            n == all_items.len(),
            it.seq() == all_items,
            i == it.index(),
            all_keys == keys_view(keys@),
            out@ == sorted_desc_by_keys(all_items.take(i as int), all_keys.take(i as int)),
            keys_view(out_keys@) == sorted_desc_keys(all_keys.take(i as int)),
            out_keys.len() == i,
    {
        let k = &keys[i];
        let mut p: usize = 0;
        while p < out_keys.len() && !key_lt(&out_keys[p], k)
            invariant
                p <= out_keys.len(),
                ins_pos_desc_from(keys_view(out_keys@), k@, 0) == ins_pos_desc_from(
                    keys_view(out_keys@),
                    k@,
                    p as int,
                ),
            decreases out_keys.len() - p,
        {
            p += 1;
        }
        proof {
            lemma_sorted_desc_len(all_items.take(i as int), all_keys.take(i as int));
            lemma_ins_pos_desc_bounds(keys_view(out_keys@), k@, p as int);
            assert(all_items.take(i + 1).drop_last() =~= all_items.take(i as int));
            assert(all_keys.take(i + 1).drop_last() =~= all_keys.take(i as int));
            assert(all_keys.take(i + 1).last() == k@);
            assert(all_items.take(i + 1).last() == item);
        }
        let kc = copy_key(k);
        proof {
            assert(keys_view(out_keys@.insert(p as int, kc)) =~= keys_view(out_keys@).insert(
                p as int,
                k@,
            ));
        }
        out_keys.insert(p, kc);
        out.insert(p, item);
        i += 1;
    }
    assert(all_items.take(n as int) =~= all_items);
    assert(all_keys.take(n as int) =~= all_keys);
    out
}

/// Descending sorting commutes with taking a view of each element.
pub proof fn lemma_sorted_desc_map<A, B>(items: Seq<A>, keys: Seq<Seq<u32>>, f: spec_fn(A) -> B)
    requires
        items.len() == keys.len(),
    ensures
        sorted_desc_by_keys(items.map_values(f), keys) == sorted_desc_by_keys(items, keys).map_values(f),
    decreases items.len(),
{
    if items.len() > 0 {
        let prev = items.drop_last();
        assert(items.map_values(f).drop_last() =~= prev.map_values(f));
        lemma_sorted_desc_map(prev, keys.drop_last(), f);
        lemma_sorted_desc_len(prev, keys.drop_last());
        let sk = sorted_desc_keys(keys.drop_last());
        lemma_ins_pos_desc_bounds(sk, keys.last(), 0);
        let p = ins_pos_desc_from(sk, keys.last(), 0);
        let sp = sorted_desc_by_keys(prev, keys.drop_last());
        assert(sp.insert(p, items.last()).map_values(f) =~= sp.map_values(f).insert(
            p,
            f(items.last()),
        ));
    }
}

// ---------------------------------------------------------------------------
// What a stable sort guarantees
// ---------------------------------------------------------------------------

/// Of two keys, one comes first or they are equal.
pub proof fn lemma_lex_total(a: Seq<u32>, b: Seq<u32>)
    ensures
        lex_lt(a, b) || a == b || lex_lt(b, a),
    decreases a.len(),
{
    if a.len() == 0 && b.len() == 0 {
        assert(a =~= b);
    } else if a.len() > 0 && b.len() > 0 && a[0] == b[0] {
        lemma_lex_total(a.drop_first(), b.drop_first());
        if a.drop_first() == b.drop_first() {
            assert(a =~= seq![a[0]] + a.drop_first());
            assert(b =~= seq![b[0]] + b.drop_first());
        }
    }
}

/// No key comes before a key that comes before it.
pub proof fn lemma_lex_asym(a: Seq<u32>, b: Seq<u32>)
    requires
        lex_lt(a, b),
    ensures
        !lex_lt(b, a),
    decreases a.len(),
{
    if a.len() > 0 && b.len() > 0 && a[0] == b[0] {
        lemma_lex_asym(a.drop_first(), b.drop_first());
    }
}

/// "Comes before" is transitive.
pub proof fn lemma_lex_trans(a: Seq<u32>, b: Seq<u32>, c: Seq<u32>)
    requires
        lex_lt(a, b),
        lex_lt(b, c),
    ensures
        lex_lt(a, c),
    decreases a.len(),
{
    if a.len() > 0 && b.len() > 0 && c.len() > 0 && a[0] == b[0] && b[0] == c[0] {
        lemma_lex_trans(a.drop_first(), b.drop_first(), c.drop_first());
    }
}

/// The positions `0..n`.
pub open spec fn positions(n: nat) -> Seq<int> {
    Seq::new(n, |i: int| i)
}

/// `order` lists each position of `keys` once, by key and, among equal
/// keys, by position.
pub open spec fn stable_order(order: Seq<int>, keys: Seq<Seq<u32>>) -> bool {
    &&& order.len() == keys.len()
    &&& forall|i: int| 0 <= i < order.len() ==> 0 <= #[trigger] order[i] < keys.len()
    &&& forall|q: int| 0 <= q < keys.len() ==> #[trigger] order.contains(q)
    &&& forall|i: int, j: int|
        0 <= i < j < order.len() ==> #[trigger] lex_lt(keys[order[i]], keys[order[j]]) || (
        keys[order[i]] == keys[order[j]] && order[i] < #[trigger] order[j])
}

/// Where `ins_pos_from` puts `k`: after every key from `i` on that `k` does
/// not come before, and before the first that it does.
pub proof fn lemma_ins_pos_props(keys: Seq<Seq<u32>>, k: Seq<u32>, i: int)
    requires
        0 <= i <= keys.len(),
    ensures
        forall|j: int| i <= j < ins_pos_from(keys, k, i) ==> !lex_lt(k, #[trigger] keys[j]),
        ins_pos_from(keys, k, i) < keys.len() ==> lex_lt(k, keys[ins_pos_from(keys, k, i)]),
    decreases keys.len() - i,
{
    if i < keys.len() && !lex_lt(k, keys[i]) {
        lemma_ins_pos_props(keys, k, i + 1);
    }
}

/// Sorting keys by themselves gives the sorted keys.
proof fn lemma_sorted_self(keys: Seq<Seq<u32>>)
    ensures
        sorted_by_keys(keys, keys) == sorted_keys(keys),
    decreases keys.len(),
{
    if keys.len() > 0 {
        lemma_sorted_self(keys.drop_last());
    }
}

/// The sorted keys are the keys at the sorted positions.
proof fn lemma_sorted_positions_keys(keys: Seq<Seq<u32>>)
    ensures
        sorted_keys(keys) == sorted_by_keys(positions(keys.len()), keys).map_values(
            |p: int| keys[p],
        ),
{
    let f = |p: int| keys[p];
    assert(positions(keys.len()).map_values(f) =~= keys);
    lemma_sorted_map(positions(keys.len()), keys, f);
    lemma_sorted_self(keys);
}

proof fn lemma_stable_order(keys: Seq<Seq<u32>>)
    ensures
        stable_order(sorted_by_keys(positions(keys.len()), keys), keys),
    decreases keys.len(),
{
    let n = keys.len();
    if n > 0 {
        lemma_stable_order(keys.drop_last());
        lemma_stable_order_step(keys);
    }
}

proof fn lemma_stable_order_step(keys: Seq<Seq<u32>>)
    requires
        keys.len() > 0,
        stable_order(sorted_by_keys(positions((keys.len() - 1) as nat), keys.drop_last()), keys.drop_last()),
    ensures
        stable_order(sorted_by_keys(positions(keys.len()), keys), keys),
{
    let n = keys.len();
    let kp = keys.drop_last();
    let k = keys.last();
    let prev = sorted_by_keys(positions(kp.len()), kp);
    let sk = sorted_keys(kp);
    lemma_sorted_positions_keys(kp);
    lemma_sorted_len(positions(kp.len()), kp);
    lemma_ins_pos_bounds(sk, k, 0);
    lemma_ins_pos_props(sk, k, 0);
    let p = ins_pos(sk, k);
    assert(positions(n).drop_last() =~= positions(kp.len()));
    let o = prev.insert(p, n - 1);
    assert(sorted_by_keys(positions(n), keys) == o);
    assert(forall|i: int| 0 <= i < prev.len() ==> sk[i] == keys[#[trigger] prev[i]]);
    assert forall|i: int| 0 <= i < o.len() implies 0 <= #[trigger] o[i] < n by {
        if i > p {
            assert(o[i] == prev[i - 1]);
        }
    }
    assert forall|q: int| 0 <= q < n implies #[trigger] o.contains(q) by {
        if q == n - 1 {
            assert(o[p] == q);
        } else {
            assert(prev.contains(q));
            let w = choose|w: int| 0 <= w < prev.len() && prev[w] == q;
            if w < p {
                assert(o[w] == q);
            } else {
                assert(o[w + 1] == q);
            }
        }
    }
    assert forall|i: int, j: int| 0 <= i < j < o.len() implies #[trigger] lex_lt(
        keys[o[i]],
        keys[o[j]],
    ) || (keys[o[i]] == keys[o[j]] && o[i] < #[trigger] o[j]) by {
        if j < p {
            assert(o[i] == prev[i] && o[j] == prev[j]);
            assert(lex_lt(kp[prev[i]], kp[prev[j]]) || (kp[prev[i]] == kp[prev[j]] && prev[i]
                < prev[j]));
        } else if j == p {
            assert(o[i] == prev[i] && o[j] == n - 1);
            assert(!lex_lt(k, sk[i]));
            lemma_lex_total(sk[i], k);
        } else if i > p {
            assert(o[i] == prev[i - 1] && o[j] == prev[j - 1]);
            assert(lex_lt(kp[prev[i - 1]], kp[prev[j - 1]]) || (kp[prev[i - 1]] == kp[prev[j
                - 1]] && prev[i - 1] < prev[j - 1]));
        } else if i == p {
            assert(o[i] == n - 1 && o[j] == prev[j - 1]);
            assert(lex_lt(k, sk[p]));
            if p < j - 1 {
                assert(lex_lt(kp[prev[p]], kp[prev[j - 1]]) || (kp[prev[p]] == kp[prev[j - 1]]
                    && prev[p] < prev[j - 1]));
                if lex_lt(sk[p], sk[j - 1]) {
                    lemma_lex_trans(k, sk[p], sk[j - 1]);
                }
            }
        } else {
            assert(i < p && p < j);
            assert(o[i] == prev[i] && o[j] == prev[j - 1]);
            assert(lex_lt(kp[prev[i]], kp[prev[j - 1]]) || (kp[prev[i]] == kp[prev[j - 1]]
                && prev[i] < prev[j - 1]));
        }
    }
}

/// Sorting by keys is stable: the sorted positions list each position once,
/// ordered by key and, among equal keys, in the order given; and any
/// items sorted by the same keys are the items at those positions.
pub proof fn lemma_sort_stable<T>(items: Seq<T>, keys: Seq<Seq<u32>>)
    requires
        items.len() == keys.len(),
    ensures
        stable_order(sorted_by_keys(positions(keys.len()), keys), keys),
        sorted_by_keys(items, keys) == sorted_by_keys(positions(keys.len()), keys).map_values(
            |p: int| items[p],
        ),
{
    lemma_stable_order(keys);
    let f = |p: int| items[p];
    assert(positions(keys.len()).map_values(f) =~= items);
    lemma_sorted_map(positions(keys.len()), keys, f);
}

/// `order` lists each position of `keys` once, greatest key first and,
/// among equal keys, by position.
pub open spec fn stable_desc_order(order: Seq<int>, keys: Seq<Seq<u32>>) -> bool {
    &&& order.len() == keys.len()
    &&& forall|i: int| 0 <= i < order.len() ==> 0 <= #[trigger] order[i] < keys.len()
    &&& forall|q: int| 0 <= q < keys.len() ==> #[trigger] order.contains(q)
    &&& forall|i: int, j: int|
        0 <= i < j < order.len() ==> #[trigger] lex_lt(keys[order[j]], keys[order[i]]) || (
        keys[order[i]] == keys[order[j]] && order[i] < #[trigger] order[j])
}

/// Where `ins_pos_desc_from` puts `k`: after every key from `i` on that
/// does not come before `k`, and before the first that does.
pub proof fn lemma_ins_pos_desc_props(keys: Seq<Seq<u32>>, k: Seq<u32>, i: int)
    requires
        0 <= i <= keys.len(),
    ensures
        forall|j: int| i <= j < ins_pos_desc_from(keys, k, i) ==> !lex_lt(#[trigger] keys[j], k),
        ins_pos_desc_from(keys, k, i) < keys.len() ==> lex_lt(keys[ins_pos_desc_from(keys, k, i)], k),
    decreases keys.len() - i,
{
    if i < keys.len() && !lex_lt(keys[i], k) {
        lemma_ins_pos_desc_props(keys, k, i + 1);
    }
}

proof fn lemma_sorted_desc_self(keys: Seq<Seq<u32>>)
    ensures
        sorted_desc_by_keys(keys, keys) == sorted_desc_keys(keys),
    decreases keys.len(),
{
    if keys.len() > 0 {
        lemma_sorted_desc_self(keys.drop_last());
    }
}

proof fn lemma_sorted_desc_positions_keys(keys: Seq<Seq<u32>>)
    ensures
        sorted_desc_keys(keys) == sorted_desc_by_keys(positions(keys.len()), keys).map_values(
            |p: int| keys[p],
        ),
{
    let f = |p: int| keys[p];
    assert(positions(keys.len()).map_values(f) =~= keys);
    lemma_sorted_desc_map(positions(keys.len()), keys, f);
    lemma_sorted_desc_self(keys);
}

proof fn lemma_stable_desc_order(keys: Seq<Seq<u32>>)
    ensures
        stable_desc_order(sorted_desc_by_keys(positions(keys.len()), keys), keys),
    decreases keys.len(),
{
    if keys.len() > 0 {
        lemma_stable_desc_order(keys.drop_last());
        lemma_stable_desc_order_step(keys);
    }
}

proof fn lemma_stable_desc_order_step(keys: Seq<Seq<u32>>)
    requires
        keys.len() > 0,
        stable_desc_order(
            sorted_desc_by_keys(positions((keys.len() - 1) as nat), keys.drop_last()),
            keys.drop_last(),
        ),
    ensures
        stable_desc_order(sorted_desc_by_keys(positions(keys.len()), keys), keys),
{
    let n = keys.len();
    let kp = keys.drop_last();
    let k = keys.last();
    let prev = sorted_desc_by_keys(positions(kp.len()), kp);
    let sk = sorted_desc_keys(kp);
    lemma_sorted_desc_positions_keys(kp);
    lemma_sorted_desc_len(positions(kp.len()), kp);
    lemma_ins_pos_desc_bounds(sk, k, 0);
    lemma_ins_pos_desc_props(sk, k, 0);
    let p = ins_pos_desc_from(sk, k, 0);
    assert(positions(n).drop_last() =~= positions(kp.len()));
    let o = prev.insert(p, n - 1);
    assert(sorted_desc_by_keys(positions(n), keys) == o);
    assert(forall|i: int| 0 <= i < prev.len() ==> sk[i] == keys[#[trigger] prev[i]]);
    assert forall|i: int| 0 <= i < o.len() implies 0 <= #[trigger] o[i] < n by {
        if i > p {
            assert(o[i] == prev[i - 1]);
        }
    }
    assert forall|q: int| 0 <= q < n implies #[trigger] o.contains(q) by {
        if q == n - 1 {
            assert(o[p] == q);
        } else {
            assert(prev.contains(q));
            let w = choose|w: int| 0 <= w < prev.len() && prev[w] == q;
            if w < p {
                assert(o[w] == q);
            } else {
                assert(o[w + 1] == q);
            }
        }
    }
    assert forall|i: int, j: int| 0 <= i < j < o.len() implies #[trigger] lex_lt(
        keys[o[j]],
        keys[o[i]],
    ) || (keys[o[i]] == keys[o[j]] && o[i] < #[trigger] o[j]) by {
        if j < p {
            assert(o[i] == prev[i] && o[j] == prev[j]);
            assert(lex_lt(kp[prev[j]], kp[prev[i]]) || (kp[prev[i]] == kp[prev[j]] && prev[i]
                < prev[j]));
        } else if j == p {
            assert(o[i] == prev[i] && o[j] == n - 1);
            assert(!lex_lt(sk[i], k));
            lemma_lex_total(sk[i], k);
        } else if i > p {
            assert(o[i] == prev[i - 1] && o[j] == prev[j - 1]);
            assert(lex_lt(kp[prev[j - 1]], kp[prev[i - 1]]) || (kp[prev[i - 1]] == kp[prev[j
                - 1]] && prev[i - 1] < prev[j - 1]));
        } else if i == p {
            assert(o[i] == n - 1 && o[j] == prev[j - 1]);
            assert(lex_lt(sk[p], k));
            if p < j - 1 {
                assert(lex_lt(kp[prev[j - 1]], kp[prev[p]]) || (kp[prev[p]] == kp[prev[j - 1]]
                    && prev[p] < prev[j - 1]));
                if lex_lt(sk[j - 1], sk[p]) {
                    lemma_lex_trans(sk[j - 1], sk[p], k);
                }
            }
        } else {
            assert(i < p && p < j);
            assert(o[i] == prev[i] && o[j] == prev[j - 1]);
            assert(lex_lt(kp[prev[j - 1]], kp[prev[i]]) || (kp[prev[i]] == kp[prev[j - 1]]
                && prev[i] < prev[j - 1]));
        }
    }
}

/// Sorting by keys, greatest first, is stable: the sorted positions list
/// each position once, greatest key first and, among equal keys, in their
/// order given; and any items sorted by the same keys are the items at
/// those positions.
pub proof fn lemma_sort_desc_stable<T>(items: Seq<T>, keys: Seq<Seq<u32>>)
    requires
        items.len() == keys.len(),
    ensures
        stable_desc_order(sorted_desc_by_keys(positions(keys.len()), keys), keys),
        sorted_desc_by_keys(items, keys) == sorted_desc_by_keys(positions(keys.len()), keys).map_values(
            |p: int| items[p],
        ),
{
    lemma_stable_desc_order(keys);
    let f = |p: int| items[p];
    assert(positions(keys.len()).map_values(f) =~= items);
    lemma_sorted_desc_map(positions(keys.len()), keys, f);
}

} // verus!
