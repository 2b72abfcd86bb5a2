//! The general recency law of the preview cache.
//!
//! `cache` gives every operation an exact model: `model_put` for an insert,
//! `model_promote` for a read hit. This module replays a whole history of
//! uses — inserts and reads mixed freely — over those models and proves the
//! law the cache is built around: at every point, the cache holds exactly
//! the most recently used distinct paths, most recent first, up to its
//! capacity. A path is "used" by an insert (with capacity at least one) or
//! by a read that hits.

use vstd::prelude::*;

use crate::cache::distinct_keys;
use crate::cache::model_has;
use crate::cache::model_index;
use crate::cache::model_promote;
use crate::cache::model_put;
use crate::cache::model_value;
use crate::cache::lemma_model_put_wf;

verus! {

/// One use of the cache: an insert of a value under a key, or a read of a
/// key.
pub enum CacheOp<V> {
    Put(Seq<char>, V),
    Get(Seq<char>),
}

/// The key an operation touches.
pub open spec fn op_key<V>(op: CacheOp<V>) -> Seq<char> {
    match op {
        CacheOp::Put(k, _) => k,
        CacheOp::Get(k) => k,
    }
}

/// The model after a read of `k`: a hit refreshes recency, a miss changes
/// nothing.
pub open spec fn model_get<V>(s: Seq<(Seq<char>, V)>, k: Seq<char>) -> Seq<(Seq<char>, V)> {
    if model_has(s, k) {
        model_promote(s, k)
    } else {
        s
    }
}

/// The model after one operation.
pub open spec fn model_apply<V>(
    s: Seq<(Seq<char>, V)>,
    cap: nat,
    op: CacheOp<V>,
) -> Seq<(Seq<char>, V)> {
    match op {
        CacheOp::Put(k, v) => model_put(s, cap, k, v),
        CacheOp::Get(k) => model_get(s, k),
    }
}

/// The model after a whole history of operations, applied first to last.
pub open spec fn model_apply_all<V>(
    s: Seq<(Seq<char>, V)>,
    cap: nat,
    ops: Seq<CacheOp<V>>,
) -> Seq<(Seq<char>, V)>
    decreases ops.len(),
{
    if ops.len() == 0 {
        s
    } else {
        model_apply_all(model_apply(s, cap, ops[0]), cap, ops.drop_first())
    }
}

/// Whether an operation counts as a use of its key: an insert does whenever
/// the cache can hold anything, a read only when it hits.
pub open spec fn is_use<V>(s: Seq<(Seq<char>, V)>, cap: nat, op: CacheOp<V>) -> bool {
    match op {
        CacheOp::Put(_, _) => cap > 0,
        CacheOp::Get(k) => model_has(s, k),
    }
}

/// The keys of the operations of `ops` that count as uses, in order,
/// replayed from the state `s`.
pub open spec fn used_keys<V>(
    s: Seq<(Seq<char>, V)>,
    cap: nat,
    ops: Seq<CacheOp<V>>,
) -> Seq<Seq<char>>
    decreases ops.len(),
{
    if ops.len() == 0 {
        Seq::empty()
    } else {
        (if is_use(s, cap, ops[0]) {
            seq![op_key(ops[0])]
        } else {
            Seq::empty()
        }) + used_keys(model_apply(s, cap, ops[0]), cap, ops.drop_first())
    }
}

/// `keys` with every occurrence of `k` removed.
pub open spec fn without_key(keys: Seq<Seq<char>>, k: Seq<char>) -> Seq<Seq<char>>
    decreases keys.len(),
{
    if keys.len() == 0 {
        Seq::empty()
    } else if keys[0] == k {
        without_key(keys.drop_first(), k)
    } else {
        seq![keys[0]] + without_key(keys.drop_first(), k)
    }
}

/// The first `cap` distinct keys of `keys`, in order of first occurrence.
pub open spec fn recent_distinct(keys: Seq<Seq<char>>, cap: nat) -> Seq<Seq<char>>
    decreases keys.len(),
    via recent_distinct_decreases
{
    if keys.len() == 0 || cap == 0 {
        Seq::empty()
    } else {
        seq![keys[0]] + recent_distinct(without_key(keys.drop_first(), keys[0]), (cap - 1) as nat)
    }
}

#[via_fn]
proof fn recent_distinct_decreases(keys: Seq<Seq<char>>, cap: nat) {
    if !(keys.len() == 0 || cap == 0) {
        lemma_without_key_len(keys.drop_first(), keys[0]);
    }
}

/// The keys of a cache model, in recency order.
pub open spec fn model_keys<V>(s: Seq<(Seq<char>, V)>) -> Seq<Seq<char>> {
    s.map_values(|e: (Seq<char>, V)| e.0)
}

proof fn lemma_without_key_len(keys: Seq<Seq<char>>, k: Seq<char>)
    ensures
        without_key(keys, k).len() <= keys.len(),
    decreases keys.len(),
{
    if keys.len() > 0 {
        lemma_without_key_len(keys.drop_first(), k);
    }
}

proof fn lemma_without_key_absent(keys: Seq<Seq<char>>, k: Seq<char>)
    requires
        !keys.contains(k),
    ensures
        without_key(keys, k) == keys,
    decreases keys.len(),
{
    if keys.len() > 0 {
        assert(keys[0] != k);
        assert(forall|i: int| 0 <= i < keys.drop_first().len() ==> keys.drop_first()[i] == keys[i + 1]);
        assert(!keys.drop_first().contains(k)) by {
            if keys.drop_first().contains(k) {
                let i = choose|i: int| 0 <= i < keys.drop_first().len() && keys.drop_first()[i] == k;
                assert(keys[i + 1] == k);
            }
        }
        lemma_without_key_absent(keys.drop_first(), k);
        assert(seq![keys[0]] + keys.drop_first() =~= keys);
    } else {
        assert(without_key(keys, k) =~= keys);
    }
}

proof fn lemma_without_key_keeps_others(keys: Seq<Seq<char>>, k: Seq<char>, q: Seq<char>)
    requires
        q != k,
    ensures
        without_key(keys, k).contains(q) == keys.contains(q),
    decreases keys.len(),
{
    if keys.len() > 0 {
        lemma_without_key_keeps_others(keys.drop_first(), k, q);
        if keys[0] == k {
            assert(keys.contains(q) == keys.drop_first().contains(q)) by {
                if keys.contains(q) {
                    let i = choose|i: int| 0 <= i < keys.len() && keys[i] == q;
                    assert(i != 0);
                    assert(keys.drop_first()[i - 1] == q);
                }
                if keys.drop_first().contains(q) {
                    let i = choose|i: int|
                        0 <= i < keys.drop_first().len() && keys.drop_first()[i] == q;
                    assert(keys[i + 1] == q);
                }
            }
        } else {
            let w = seq![keys[0]] + without_key(keys.drop_first(), k);
            assert(without_key(keys, k) == w);
            assert(w.contains(q) == (keys[0] == q || without_key(keys.drop_first(), k).contains(q)))
                by {
                if w.contains(q) {
                    let i = choose|i: int| 0 <= i < w.len() && w[i] == q;
                    if i > 0 {
                        assert(without_key(keys.drop_first(), k)[i - 1] == q);
                    }
                } else {
                    assert(w[0] == keys[0]);
                    if without_key(keys.drop_first(), k).contains(q) {
                        let i = choose|i: int|
                            0 <= i < without_key(keys.drop_first(), k).len() && without_key(
                                keys.drop_first(),
                                k,
                            )[i] == q;
                        assert(w[i + 1] == q);
                    }
                }
            }
            assert(keys.contains(q) == (keys[0] == q || keys.drop_first().contains(q))) by {
                if keys.contains(q) {
                    let i = choose|i: int| 0 <= i < keys.len() && keys[i] == q;
                    if i > 0 {
                        assert(keys.drop_first()[i - 1] == q);
                    }
                }
                if keys.drop_first().contains(q) {
                    let i = choose|i: int|
                        0 <= i < keys.drop_first().len() && keys.drop_first()[i] == q;
                    assert(keys[i + 1] == q);
                }
            }
        }
    }
}

proof fn lemma_without_key_commutes(keys: Seq<Seq<char>>, a: Seq<char>, b: Seq<char>)
    ensures
        without_key(without_key(keys, a), b) == without_key(without_key(keys, b), a),
    decreases keys.len(),
{
    if keys.len() > 0 {
        lemma_without_key_commutes(keys.drop_first(), a, b);
        let rest = keys.drop_first();
        if keys[0] == a && keys[0] == b {
        } else if keys[0] == a {
            assert(without_key(keys, b) == seq![keys[0]] + without_key(rest, b));
            assert((seq![keys[0]] + without_key(rest, b)).drop_first() =~= without_key(rest, b));
        } else if keys[0] == b {
            assert(without_key(keys, a) == seq![keys[0]] + without_key(rest, a));
            assert((seq![keys[0]] + without_key(rest, a)).drop_first() =~= without_key(rest, a));
        } else {
            assert(without_key(keys, a) == seq![keys[0]] + without_key(rest, a));
            assert(without_key(keys, b) == seq![keys[0]] + without_key(rest, b));
            assert((seq![keys[0]] + without_key(rest, a)).drop_first() =~= without_key(rest, a));
            assert((seq![keys[0]] + without_key(rest, b)).drop_first() =~= without_key(rest, b));
        }
    }
}

proof fn lemma_without_key_removes(keys: Seq<Seq<char>>, k: Seq<char>)
    ensures
        !without_key(keys, k).contains(k),
    decreases keys.len(),
{
    if keys.len() > 0 {
        lemma_without_key_removes(keys.drop_first(), k);
        if keys[0] != k {
            let w = seq![keys[0]] + without_key(keys.drop_first(), k);
            assert(without_key(keys, k) == w);
            if w.contains(k) {
                let i = choose|i: int| 0 <= i < w.len() && w[i] == k;
                assert(i != 0);
                assert(without_key(keys.drop_first(), k)[i - 1] == k);
                assert(without_key(keys.drop_first(), k).contains(k));
            }
        }
    }
}

proof fn lemma_recent_distinct_len(keys: Seq<Seq<char>>, cap: nat)
    ensures
        recent_distinct(keys, cap).len() <= cap,
        recent_distinct(keys, cap).len() <= keys.len(),
    decreases keys.len(),
{
    if keys.len() > 0 && cap > 0 {
        lemma_without_key_len(keys.drop_first(), keys[0]);
        lemma_recent_distinct_len(without_key(keys.drop_first(), keys[0]), (cap - 1) as nat);
    }
}

proof fn lemma_recent_distinct_subset(keys: Seq<Seq<char>>, cap: nat, q: Seq<char>)
    requires
        recent_distinct(keys, cap).contains(q),
    ensures
        keys.contains(q),
    decreases keys.len(),
{
    if keys.len() > 0 && cap > 0 {
        let rest = without_key(keys.drop_first(), keys[0]);
        let r = recent_distinct(keys, cap);
        assert(r == seq![keys[0]] + recent_distinct(rest, (cap - 1) as nat));
        let i = choose|i: int| 0 <= i < r.len() && r[i] == q;
        if i == 0 {
            assert(keys[0] == q);
        } else {
            assert(recent_distinct(rest, (cap - 1) as nat)[i - 1] == q);
            lemma_without_key_len(keys.drop_first(), keys[0]);
            lemma_recent_distinct_subset(rest, (cap - 1) as nat, q);
            if keys[0] == q {
            } else {
                lemma_without_key_keeps_others(keys.drop_first(), keys[0], q);
                let j = choose|j: int|
                    0 <= j < keys.drop_first().len() && keys.drop_first()[j] == q;
                assert(keys[j + 1] == q);
            }
        }
    }
}

proof fn lemma_recent_distinct_covers(keys: Seq<Seq<char>>, cap: nat, q: Seq<char>)
    requires
        recent_distinct(keys, cap).len() < cap,
        keys.contains(q),
    ensures
        recent_distinct(keys, cap).contains(q),
    decreases keys.len(),
{
    let r = recent_distinct(keys, cap);
    assert(keys.len() > 0 && cap > 0);
    let rest = without_key(keys.drop_first(), keys[0]);
    let r1 = recent_distinct(rest, (cap - 1) as nat);
    assert(r == seq![keys[0]] + r1);
    if keys[0] == q {
        assert(r[0] == q);
    } else {
        let i = choose|i: int| 0 <= i < keys.len() && keys[i] == q;
        assert(i != 0);
        assert(keys.drop_first()[i - 1] == q);
        lemma_without_key_keeps_others(keys.drop_first(), keys[0], q);
        lemma_without_key_len(keys.drop_first(), keys[0]);
        lemma_recent_distinct_covers(rest, (cap - 1) as nat, q);
        let j = choose|j: int| 0 <= j < r1.len() && r1[j] == q;
        assert(r[j + 1] == q);
    }
}

proof fn lemma_recent_distinct_stable(keys: Seq<Seq<char>>, cap: nat)
    requires
        cap >= 1,
        recent_distinct(keys, cap).len() < cap,
    ensures
        recent_distinct(keys, (cap - 1) as nat) == recent_distinct(keys, cap),
    decreases keys.len(),
{
    if keys.len() == 0 {
        assert(recent_distinct(keys, (cap - 1) as nat) =~= recent_distinct(keys, cap));
    } else {
        let rest = without_key(keys.drop_first(), keys[0]);
        let r1 = recent_distinct(rest, (cap - 1) as nat);
        assert(recent_distinct(keys, cap) == seq![keys[0]] + r1);
        assert(r1.len() < cap - 1);
        lemma_without_key_len(keys.drop_first(), keys[0]);
        lemma_recent_distinct_stable(rest, (cap - 1) as nat);
        assert(recent_distinct(keys, (cap - 1) as nat) == seq![keys[0]] + recent_distinct(
            rest,
            (cap - 2) as nat,
        ));
    }
}

proof fn lemma_recent_distinct_drop_last(keys: Seq<Seq<char>>, cap: nat)
    requires
        cap >= 1,
        recent_distinct(keys, cap).len() == cap,
    ensures
        recent_distinct(keys, (cap - 1) as nat) == recent_distinct(keys, cap).drop_last(),
    decreases keys.len(),
{
    assert(keys.len() > 0);
    let rest = without_key(keys.drop_first(), keys[0]);
    let r1 = recent_distinct(rest, (cap - 1) as nat);
    let r = recent_distinct(keys, cap);
    assert(r == seq![keys[0]] + r1);
    if cap == 1 {
        assert(recent_distinct(keys, 0) =~= r.drop_last());
    } else {
        assert(r1.len() == cap - 1);
        lemma_without_key_len(keys.drop_first(), keys[0]);
        lemma_recent_distinct_drop_last(rest, (cap - 1) as nat);
        assert(recent_distinct(keys, (cap - 1) as nat) == seq![keys[0]] + recent_distinct(
            rest,
            (cap - 2) as nat,
        ));
        assert(seq![keys[0]] + r1.drop_last() =~= (seq![keys[0]] + r1).drop_last());
    }
}

proof fn lemma_recent_distinct_skip_absent(keys: Seq<Seq<char>>, cap: nat, k: Seq<char>)
    requires
        !recent_distinct(keys, cap).contains(k),
    ensures
        recent_distinct(without_key(keys, k), cap) == recent_distinct(keys, cap),
    decreases keys.len(),
{
    if cap == 0 {
        assert(recent_distinct(without_key(keys, k), 0) =~= recent_distinct(keys, 0));
    } else if keys.len() == 0 {
        assert(without_key(keys, k) =~= Seq::<Seq<char>>::empty());
    } else {
        let rest = keys.drop_first();
        let w = without_key(rest, keys[0]);
        let r = recent_distinct(keys, cap);
        assert(r == seq![keys[0]] + recent_distinct(w, (cap - 1) as nat));
        assert(r[0] == keys[0]);
        assert(keys[0] != k);
        assert(without_key(keys, k) == seq![keys[0]] + without_key(rest, k));
        assert((seq![keys[0]] + without_key(rest, k)).drop_first() =~= without_key(rest, k));
        assert(recent_distinct(without_key(keys, k), cap) == seq![keys[0]] + recent_distinct(
            without_key(without_key(rest, k), keys[0]),
            (cap - 1) as nat,
        ));
        lemma_without_key_commutes(rest, k, keys[0]);
        let r1 = recent_distinct(w, (cap - 1) as nat);
        assert(!r1.contains(k)) by {
            if r1.contains(k) {
                let i = choose|i: int| 0 <= i < r1.len() && r1[i] == k;
                assert(r[i + 1] == k);
            }
        }
        lemma_without_key_len(rest, keys[0]);
        lemma_recent_distinct_skip_absent(w, (cap - 1) as nat, k);
    }
}

proof fn lemma_recent_distinct_remove_member(keys: Seq<Seq<char>>, cap: nat, k: Seq<char>, i: int)
    requires
        0 <= i < recent_distinct(keys, cap).len(),
        recent_distinct(keys, cap)[i] == k,
    ensures
        recent_distinct(keys, cap).remove(i) == recent_distinct(without_key(keys, k), (cap - 1) as nat),
    decreases keys.len(),
{
    assert(keys.len() > 0 && cap > 0);
    let rest = keys.drop_first();
    let w = without_key(rest, keys[0]);
    let r1 = recent_distinct(w, (cap - 1) as nat);
    let r = recent_distinct(keys, cap);
    assert(r == seq![keys[0]] + r1);
    if i == 0 {
        assert(keys[0] == k);
        assert(without_key(keys, k) == without_key(rest, k));
        assert(r.remove(0) =~= r1);
    } else {
        assert(r1[i - 1] == k);
        assert(keys[0] != k) by {
            lemma_recent_distinct_subset(w, (cap - 1) as nat, k);
            lemma_without_key_removes(rest, keys[0]);
        }
        lemma_without_key_len(rest, keys[0]);
        lemma_recent_distinct_remove_member(w, (cap - 1) as nat, k, i - 1);
        lemma_without_key_commutes(rest, k, keys[0]);
        assert(without_key(keys, k) == seq![keys[0]] + without_key(rest, k));
        assert((seq![keys[0]] + without_key(rest, k)).drop_first() =~= without_key(rest, k));
        assert(recent_distinct(without_key(keys, k), (cap - 1) as nat) == seq![keys[0]]
            + recent_distinct(without_key(without_key(rest, k), keys[0]), (cap - 2) as nat));
        assert(r.remove(i) =~= seq![keys[0]] + r1.remove(i - 1));
    }
}

proof fn lemma_apply_all_snoc<V>(
    s: Seq<(Seq<char>, V)>,
    cap: nat,
    ops: Seq<CacheOp<V>>,
    op: CacheOp<V>,
)
    ensures
        model_apply_all(s, cap, ops.push(op)) == model_apply(
            model_apply_all(s, cap, ops),
            cap,
            op,
        ),
    decreases ops.len(),
{
    let snoc = ops.push(op);
    if ops.len() == 0 {
        assert(snoc[0] == op);
        assert(snoc.drop_first() =~= Seq::<CacheOp<V>>::empty());
        assert(model_apply_all(model_apply(s, cap, op), cap, snoc.drop_first()) == model_apply(
            s,
            cap,
            op,
        ));
        assert(model_apply_all(s, cap, ops) == s);
    } else {
        assert(snoc[0] == ops[0]);
        assert(snoc.drop_first() =~= ops.drop_first().push(op));
        let s1 = model_apply(s, cap, ops[0]);
        assert(model_apply_all(s, cap, snoc) == model_apply_all(s1, cap, snoc.drop_first()));
        lemma_apply_all_snoc(s1, cap, ops.drop_first(), op);
        assert(model_apply_all(s, cap, ops) == model_apply_all(s1, cap, ops.drop_first()));
    }
}

proof fn lemma_used_keys_snoc<V>(
    s: Seq<(Seq<char>, V)>,
    cap: nat,
    ops: Seq<CacheOp<V>>,
    op: CacheOp<V>,
)
    ensures
        used_keys(s, cap, ops.push(op)) == used_keys(s, cap, ops) + (if is_use(
            model_apply_all(s, cap, ops),
            cap,
            op,
        ) {
            seq![op_key(op)]
        } else {
            Seq::<Seq<char>>::empty()
        }),
    decreases ops.len(),
{
    let snoc = ops.push(op);
    if ops.len() == 0 {
        assert(snoc[0] == op);
        assert(snoc.drop_first() =~= Seq::<CacheOp<V>>::empty());
        assert(model_apply_all(s, cap, ops) == s);
        assert(used_keys(s, cap, ops) == Seq::<Seq<char>>::empty());
        assert(used_keys(model_apply(s, cap, op), cap, snoc.drop_first()) == Seq::<
            Seq<char>,
        >::empty());
        if is_use(s, cap, op) {
            assert(used_keys(s, cap, snoc) =~= seq![op_key(op)]);
            assert(used_keys(s, cap, ops) + seq![op_key(op)] =~= seq![op_key(op)]);
        } else {
            assert(used_keys(s, cap, snoc) =~= Seq::<Seq<char>>::empty());
            assert(used_keys(s, cap, ops) + Seq::<Seq<char>>::empty() =~= Seq::<
                Seq<char>,
            >::empty());
        }
    } else {
        assert(snoc[0] == ops[0]);
        assert(snoc.drop_first() =~= ops.drop_first().push(op));
        let s1 = model_apply(s, cap, ops[0]);
        let head: Seq<Seq<char>> = if is_use(s, cap, ops[0]) {
            seq![op_key(ops[0])]
        } else {
            Seq::empty()
        };
        assert(used_keys(s, cap, snoc) == head + used_keys(s1, cap, snoc.drop_first()));
        assert(used_keys(s, cap, ops) == head + used_keys(s1, cap, ops.drop_first()));
        lemma_used_keys_snoc(s1, cap, ops.drop_first(), op);
        assert(model_apply_all(s, cap, ops) == model_apply_all(s1, cap, ops.drop_first()));
        let tail: Seq<Seq<char>> = if is_use(model_apply_all(s, cap, ops), cap, op) {
            seq![op_key(op)]
        } else {
            Seq::empty()
        };
        assert(head + (used_keys(s1, cap, ops.drop_first()) + tail) =~= (head + used_keys(
            s1,
            cap,
            ops.drop_first(),
        )) + tail);
    }
}

/// Cache recency: replaying any history of inserts and reads over an
/// initially empty cache of capacity `cap` leaves a well-formed cache that
/// holds exactly the most recently used distinct paths, most recent first,
/// up to `cap` of them. A path is used by an insert (when the capacity is
/// positive) and by a read that hits; with more distinct paths used than
/// `cap`, exactly `cap` remain.
pub proof fn lemma_cache_recency<V>(cap: nat, ops: Seq<CacheOp<V>>)
    ensures
        ({
            let final_model = model_apply_all(Seq::<(Seq<char>, V)>::empty(), cap, ops);
            &&& distinct_keys(final_model)
            &&& final_model.len() <= cap
            &&& model_keys(final_model) == recent_distinct(
                used_keys(Seq::<(Seq<char>, V)>::empty(), cap, ops).reverse(),
                cap,
            )
        }),
    decreases ops.len(),
{
    let empty = Seq::<(Seq<char>, V)>::empty();
    if ops.len() == 0 {
        assert(model_keys(empty) =~= Seq::<Seq<char>>::empty());
        assert(used_keys(empty, cap, ops).reverse() =~= Seq::<Seq<char>>::empty());
    } else {
        let ops0 = ops.drop_last();
        let op = ops.last();
        assert(ops0.push(op) =~= ops);
        lemma_cache_recency::<V>(cap, ops0);
        lemma_apply_all_snoc(empty, cap, ops0, op);
        lemma_used_keys_snoc(empty, cap, ops0, op);
        let r0 = model_apply_all(empty, cap, ops0);
        let u0 = used_keys(empty, cap, ops0);
        let k0 = model_keys(r0);
        let rf = model_apply(r0, cap, op);
        assert(model_apply_all(empty, cap, ops) == rf);
        assert(forall|i: int| 0 <= i < r0.len() ==> k0[i] == r0[i].0);
        if !is_use(r0, cap, op) {
            assert(used_keys(empty, cap, ops) =~= u0);
            match op {
                CacheOp::Get(k) => {
                    assert(!model_has(r0, k));
                    assert(rf == r0);
                },
                CacheOp::Put(k, v) => {
                    assert(cap == 0);
                    assert(rf == r0);
                },
            }
        } else {
            let k = op_key(op);
            let u = used_keys(empty, cap, ops);
            assert(u == u0 + seq![k]);
            assert(u.reverse() =~= seq![k] + u0.reverse());
            assert(cap >= 1) by {
                match op {
                    CacheOp::Put(_, _) => {},
                    CacheOp::Get(q) => {
                        assert(model_has(r0, q));
                        assert(r0.len() >= 1);
                    },
                }
            }
            let u0r = u0.reverse();
            assert((seq![k] + u0r)[0] == k);
            assert((seq![k] + u0r).drop_first() =~= u0r);
            assert(recent_distinct(u.reverse(), cap) == seq![k] + recent_distinct(
                without_key(u0r, k),
                (cap - 1) as nat,
            ));
            assert(k0.contains(k) == model_has(r0, k)) by {
                if model_has(r0, k) {
                    let i = choose|i: int| 0 <= i < r0.len() && r0[i].0 == k;
                    assert(k0[i] == k);
                }
                if k0.contains(k) {
                    let i = choose|i: int| 0 <= i < k0.len() && k0[i] == k;
                    assert(r0[i].0 == k);
                }
            }
            if model_has(r0, k) {
                let idx = model_index(r0, k);
                assert(0 <= idx < r0.len() && r0[idx].0 == k);
                assert(k0[idx] == k);
                let base = r0.remove(idx);
                match op {
                    CacheOp::Put(q, v) => {
                        assert(rf == seq![(k, v)] + base);
                        lemma_model_put_wf(r0, cap, k, v);
                    },
                    CacheOp::Get(q) => {
                        assert(rf == seq![(k, model_value(r0, k))] + base);
                        crate::cache::lemma_model_promote_keys(r0, k, k);
                    },
                }
                assert(model_keys(rf) =~= seq![k] + k0.remove(idx)) by {
                    assert(forall|m: int| 0 <= m < rf.len() ==> model_keys(rf)[m] == rf[m].0);
                    assert forall|m: int| 1 <= m < rf.len() implies rf[m].0 == k0.remove(idx)[m
                        - 1] by {
                        if m - 1 < idx {
                            assert(base[m - 1] == r0[m - 1]);
                        } else {
                            assert(base[m - 1] == r0[m]);
                        }
                    }
                }
                lemma_recent_distinct_remove_member(u0r, cap, k, idx);
                assert(k0.remove(idx) == recent_distinct(without_key(u0r, k), (cap - 1) as nat));
            } else {
                let q_v = match op {
                    CacheOp::Put(q, v) => v,
                    CacheOp::Get(q) => arbitrary(),
                };
                assert(op == CacheOp::Put(k, q_v));
                lemma_model_put_wf(r0, cap, k, q_v);
                assert(!k0.contains(k));
                if r0.len() < cap {
                    assert(rf == seq![(k, q_v)] + r0);
                    assert(model_keys(rf) =~= seq![k] + k0);
                    assert(k0.len() < cap);
                    assert(!u0r.contains(k)) by {
                        if u0r.contains(k) {
                            lemma_recent_distinct_covers(u0r, cap, k);
                        }
                    }
                    lemma_without_key_absent(u0r, k);
                    lemma_recent_distinct_stable(u0r, cap);
                    assert(recent_distinct(without_key(u0r, k), (cap - 1) as nat) == k0);
                } else {
                    assert(r0.len() == cap);
                    assert(rf == seq![(k, q_v)] + r0.drop_last());
                    assert(model_keys(rf) =~= seq![k] + k0.drop_last()) by {
                        assert(forall|m: int| 0 <= m < rf.len() ==> model_keys(rf)[m] == rf[m].0);
                        assert(forall|m: int|
                            1 <= m < rf.len() ==> rf[m].0 == r0.drop_last()[m - 1].0);
                    }
                    assert(k0.len() == cap);
                    lemma_recent_distinct_drop_last(u0r, cap);
                    assert(recent_distinct(u0r, (cap - 1) as nat) == k0.drop_last());
                    assert(!recent_distinct(u0r, (cap - 1) as nat).contains(k)) by {
                        if k0.drop_last().contains(k) {
                            let i = choose|i: int|
                                0 <= i < k0.drop_last().len() && k0.drop_last()[i] == k;
                            assert(k0[i] == k);
                        }
                    }
                    lemma_recent_distinct_skip_absent(u0r, (cap - 1) as nat, k);
                    assert(recent_distinct(without_key(u0r, k), (cap - 1) as nat)
                        == k0.drop_last());
                }
            }
        }
    }
}

} // verus!
