//! A bounded, least-recently-used preview cache.
//!
//! The cache maps a path (a `String`) to a decoded preview value of type `V`.
//! Its abstract model is a sequence of `(key, value)` pairs ordered from most
//! recently used to least recently used. The key invariants are that keys are
//! distinct and that the sequence never grows beyond the fixed capacity.
//! Inserting a new key into a full cache evicts the least-recently-used entry
//! (the last element of the model); reading an entry with `get` refreshes its
//! recency (moves it to the front). A cache of capacity zero holds nothing:
//! every lookup misses.

use vstd::prelude::*;

verus! {

/// True when some entry of `s` has key `k`.
pub open spec fn model_has<V>(s: Seq<(Seq<char>, V)>, k: Seq<char>) -> bool {
    exists|i: int| 0 <= i < s.len() && s[i].0 == k
}

/// The index of the entry with key `k` (meaningful only when keys are
/// distinct and `model_has(s, k)` holds).
pub open spec fn model_index<V>(s: Seq<(Seq<char>, V)>, k: Seq<char>) -> int {
    choose|i: int| 0 <= i < s.len() && s[i].0 == k
}

/// The value stored under key `k`.
pub open spec fn model_value<V>(s: Seq<(Seq<char>, V)>, k: Seq<char>) -> V {
    s[model_index(s, k)].1
}

/// All keys of `s` are distinct.
pub open spec fn distinct_keys<V>(s: Seq<(Seq<char>, V)>) -> bool {
    forall|i: int, j: int| 0 <= i < j < s.len() ==> s[i].0 != s[j].0
}

/// The model after a successful `get` of key `k`: the entry for `k` moves to
/// the front and everything else keeps its relative order.
pub open spec fn model_promote<V>(s: Seq<(Seq<char>, V)>, k: Seq<char>) -> Seq<(Seq<char>, V)> {
    seq![(k, model_value(s, k))] + s.remove(model_index(s, k))
}

/// The model after `put(k, v)` into a cache of capacity `cap`:
/// with capacity zero nothing is stored; an existing key is re-bound to `v`
/// and moved to the front; a new key is put at the front, evicting the
/// least-recently-used entry when the cache is full.
pub open spec fn model_put<V>(
    s: Seq<(Seq<char>, V)>,
    cap: nat,
    k: Seq<char>,
    v: V,
) -> Seq<(Seq<char>, V)> {
    if cap == 0 {
        s
    } else if model_has(s, k) {
        seq![(k, v)] + s.remove(model_index(s, k))
    } else if s.len() < cap {
        seq![(k, v)] + s
    } else {
        seq![(k, v)] + s.drop_last()
    }
}

/// When keys are distinct, the entry with key `k` found at index `i` is the
/// only one, so `model_index` picks exactly `i`.
pub proof fn lemma_index_unique<V>(s: Seq<(Seq<char>, V)>, k: Seq<char>, i: int)
    requires
        distinct_keys(s),
        0 <= i < s.len(),
        s[i].0 == k,
    ensures
        model_has(s, k),
        model_index(s, k) == i,
        model_value(s, k) == s[i].1,
{
    assert(model_has(s, k));
    let j = model_index(s, k);
    assert(0 <= j < s.len() && s[j].0 == k);
    if i < j {
        assert(s[i].0 != s[j].0);
    } else if j < i {
        assert(s[j].0 != s[i].0);
    }
}

/// `model_put` preserves distinctness of keys and the capacity bound, and with
/// a positive capacity its front entry is `(k, v)`.
pub proof fn lemma_model_put_wf<V>(s: Seq<(Seq<char>, V)>, cap: nat, k: Seq<char>, v: V)
    requires
        distinct_keys(s),
        s.len() <= cap,
    ensures
        distinct_keys(model_put(s, cap, k, v)),
        model_put(s, cap, k, v).len() <= cap,
        cap > 0 ==> model_put(s, cap, k, v).len() >= 1 && model_put(s, cap, k, v)[0] == (k, v),
        cap > 0 ==> model_has(model_put(s, cap, k, v), k)
            && model_value(model_put(s, cap, k, v), k) == v,
{
    let r = model_put(s, cap, k, v);
    if cap == 0 {
    } else if model_has(s, k) {
        let idx = model_index(s, k);
        assert(0 <= idx < s.len() && s[idx].0 == k);
        let base = s.remove(idx);
        assert(r == seq![(k, v)] + base);
        assert forall|m: int| 0 <= m < base.len() implies base[m].0 != k by {
            if m < idx {
                assert(base[m] == s[m]);
                lemma_index_unique(s, k, idx);
                if s[m].0 == k {
                    lemma_index_unique(s, k, m);
                }
            } else {
                assert(base[m] == s[m + 1]);
                if s[m + 1].0 == k {
                    lemma_index_unique(s, k, m + 1);
                    assert(false);
                }
            }
        }
        assert(distinct_keys(r)) by {
            assert forall|i: int, j: int| 0 <= i < j < r.len() implies r[i].0 != r[j].0 by {
                if i == 0 {
                    assert(r[j] == base[j - 1]);
                } else {
                    assert(r[i] == base[i - 1]);
                    assert(r[j] == base[j - 1]);
                    assert(s.remove(idx)[i - 1] != s.remove(idx)[j - 1] || true);
                    if i - 1 < idx {
                        assert(base[i - 1] == s[i - 1]);
                    } else {
                        assert(base[i - 1] == s[i]);
                    }
                    if j - 1 < idx {
                        assert(base[j - 1] == s[j - 1]);
                    } else {
                        assert(base[j - 1] == s[j]);
                    }
                }
            }
        }
        lemma_index_unique(r, k, 0);
    } else if s.len() < cap {
        assert(r == seq![(k, v)] + s);
        assert forall|i: int, j: int| 0 <= i < j < r.len() implies r[i].0 != r[j].0 by {
            if i == 0 {
                assert(r[j] == s[j - 1]);
                assert(!model_has(s, k));
                if s[j - 1].0 == k {
                    assert(model_has(s, k));
                }
            } else {
                assert(r[i] == s[i - 1]);
                assert(r[j] == s[j - 1]);
            }
        }
        lemma_index_unique(r, k, 0);
    } else {
        let base = s.drop_last();
        assert(r == seq![(k, v)] + base);
        assert forall|i: int, j: int| 0 <= i < j < r.len() implies r[i].0 != r[j].0 by {
            if i == 0 {
                assert(r[j] == base[j - 1]);
                assert(base[j - 1] == s[j - 1]);
                if s[j - 1].0 == k {
                    assert(model_has(s, k));
                }
            } else {
                assert(r[i] == base[i - 1]);
                assert(r[j] == base[j - 1]);
                assert(base[i - 1] == s[i - 1]);
                assert(base[j - 1] == s[j - 1]);
            }
        }
        lemma_index_unique(r, k, 0);
    }
}

/// A key other than `k` that is absent before a `put` of `k` is still absent
/// after it.
pub proof fn lemma_model_put_absent<V>(
    s: Seq<(Seq<char>, V)>,
    cap: nat,
    k: Seq<char>,
    v: V,
    q: Seq<char>,
)
    requires
        q != k,
        !model_has(s, q),
    ensures
        !model_has(model_put(s, cap, k, v), q),
{
    let r = model_put(s, cap, k, v);
    assert forall|i: int| 0 <= i < r.len() implies r[i].0 != q by {
        if cap == 0 {
            assert(!model_has(s, q));
        } else if i == 0 {
        } else {
            if model_has(s, k) {
                let idx = model_index(s, k);
                let base = s.remove(idx);
                assert(r[i] == base[i - 1]);
                if i - 1 < idx {
                    assert(base[i - 1] == s[i - 1]);
                } else {
                    assert(base[i - 1] == s[i]);
                }
            } else if s.len() < cap {
                assert(r[i] == s[i - 1]);
            } else {
                assert(r[i] == s.drop_last()[i - 1]);
                assert(s.drop_last()[i - 1] == s[i - 1]);
            }
        }
    }
}

/// Promotion keeps exactly the same set of keys, and the value under each key.
pub proof fn lemma_model_promote_keys<V>(s: Seq<(Seq<char>, V)>, k: Seq<char>, q: Seq<char>)
    requires
        distinct_keys(s),
        model_has(s, k),
    ensures
        model_has(model_promote(s, k), q) == model_has(s, q),
        model_has(s, q) ==> model_value(model_promote(s, k), q) == model_value(s, q),
        distinct_keys(model_promote(s, k)),
        model_promote(s, k).len() == s.len(),
{
    let idx = model_index(s, k);
    assert(0 <= idx < s.len() && s[idx].0 == k);
    let r = model_promote(s, k);
    assert(r == seq![(k, model_value(s, k))] + s.remove(idx));
    lemma_model_put_wf(s, s.len() as nat, k, model_value(s, k));
    assert(model_put(s, s.len() as nat, k, model_value(s, k)) == r);
    // key membership both ways
    if model_has(s, q) {
        let m = model_index(s, q);
        assert(0 <= m < s.len() && s[m].0 == q);
        if q == k {
            lemma_index_unique(r, q, 0);
            lemma_index_unique(s, k, idx);
            assert(model_value(s, q) == s[idx].1);
        } else {
            lemma_index_unique(s, k, idx);
            assert(m != idx);
            if m < idx {
                assert(s.remove(idx)[m] == s[m]);
                assert(r[m + 1] == s[m]);
                lemma_index_unique(r, q, m + 1);
            } else {
                assert(s.remove(idx)[m - 1] == s[m]);
                assert(r[m] == s[m]);
                lemma_index_unique(r, q, m);
            }
            lemma_index_unique(s, q, m);
        }
    } else {
        if q == k {
            assert(model_has(s, q)) by {
                assert(s[idx].0 == k);
            }
        }
        lemma_model_put_absent(s, s.len() as nat, k, model_value(s, k), q);
    }
}

/// The model after a whole sequence of `put` operations, applied first to
/// last, each through `model_put`.
pub open spec fn model_put_all<V>(
    s: Seq<(Seq<char>, V)>,
    cap: nat,
    ops: Seq<(Seq<char>, V)>,
) -> Seq<(Seq<char>, V)>
    decreases ops.len(),
{
    if ops.len() == 0 {
        s
    } else {
        model_put_all(model_put(s, cap, ops[0].0, ops[0].1), cap, ops.drop_first())
    }
}

proof fn lemma_put_all_snoc<V>(
    s: Seq<(Seq<char>, V)>,
    cap: nat,
    ops: Seq<(Seq<char>, V)>,
    op: (Seq<char>, V),
)
    ensures
        model_put_all(s, cap, ops.push(op)) == model_put(
            model_put_all(s, cap, ops),
            cap,
            op.0,
            op.1,
        ),
    decreases ops.len(),
{
    let snoc = ops.push(op);
    assert(snoc.len() == ops.len() + 1);
    if ops.len() == 0 {
        assert(snoc[0] == op);
        assert(snoc.drop_first() =~= Seq::<(Seq<char>, V)>::empty());
        assert(model_put_all(s, cap, snoc) == model_put_all(
            model_put(s, cap, snoc[0].0, snoc[0].1),
            cap,
            snoc.drop_first(),
        ));
        assert(model_put_all(model_put(s, cap, op.0, op.1), cap, snoc.drop_first()) == model_put(
            s,
            cap,
            op.0,
            op.1,
        ));
        assert(model_put_all(s, cap, ops) == s);
    } else {
        assert(snoc[0] == ops[0]);
        assert(snoc.drop_first() =~= ops.drop_first().push(op));
        let s1 = model_put(s, cap, ops[0].0, ops[0].1);
        assert(model_put_all(s, cap, snoc) == model_put_all(s1, cap, snoc.drop_first()));
        lemma_put_all_snoc(s1, cap, ops.drop_first(), op);
        assert(model_put_all(s1, cap, ops.drop_first().push(op)) == model_put(
            model_put_all(s1, cap, ops.drop_first()),
            cap,
            op.0,
            op.1,
        ));
        assert(model_put_all(s, cap, ops) == model_put_all(s1, cap, ops.drop_first()));
    }
}

/// Cache bound: inserting any number of distinctly-keyed entries into an
/// initially empty cache of capacity `cap` leaves exactly the most recent
/// `cap` of them (all of them while fewer have been inserted), ordered from
/// most recent to least recent. In particular, with more insertions than
/// `cap`, exactly `cap` entries remain and they are the most recently
/// inserted ones.
pub proof fn lemma_cache_bound<V>(cap: nat, ops: Seq<(Seq<char>, V)>)
    requires
        distinct_keys(ops),
    ensures
        ({
            let r = model_put_all(Seq::empty(), cap, ops);
            let expect = if ops.len() < cap {
                ops.len() as int
            } else {
                cap as int
            };
            r.len() == expect && (forall|j: int|
                0 <= j < r.len() ==> r[j] == ops[ops.len() - 1 - j])
        }),
    decreases ops.len(),
{
    let r = model_put_all(Seq::<(Seq<char>, V)>::empty(), cap, ops);
    if ops.len() == 0 {
        assert(r =~= Seq::<(Seq<char>, V)>::empty());
    } else {
        let n = ops.len() as int;
        let ops0 = ops.drop_last();
        let op = ops.last();
        assert(ops0.push(op) =~= ops);
        lemma_put_all_snoc(Seq::<(Seq<char>, V)>::empty(), cap, ops0, op);
        assert(distinct_keys(ops0)) by {
            assert(forall|i: int| 0 <= i < ops0.len() ==> ops0[i] == ops[i]);
        }
        lemma_cache_bound::<V>(cap, ops0);
        let r0 = model_put_all(Seq::<(Seq<char>, V)>::empty(), cap, ops0);
        assert(r == model_put(r0, cap, op.0, op.1));
        if cap == 0 {
            assert(r == r0);
        } else {
            assert(!model_has(r0, op.0)) by {
                if model_has(r0, op.0) {
                    let i = choose|i: int| 0 <= i < r0.len() && r0[i].0 == op.0;
                    assert(r0[i] == ops0[ops0.len() - 1 - i]);
                    assert(ops[n - 1 - 1 - i].0 == ops[n - 1].0);
                    assert(false);
                }
            }
            if r0.len() < cap {
                assert(r == seq![(op.0, op.1)] + r0);
                assert forall|j: int| 0 <= j < r.len() implies r[j] == ops[n - 1 - j] by {
                    if j == 0 {
                        assert(r[0] == (op.0, op.1));
                        assert(ops[n - 1] == op);
                    } else {
                        assert(r[j] == r0[j - 1]);
                        assert(r0[j - 1] == ops0[ops0.len() - 1 - (j - 1)]);
                        assert(ops0[n - 1 - j] == ops[n - 1 - j]);
                    }
                }
            } else {
                assert(r == seq![(op.0, op.1)] + r0.drop_last());
                assert forall|j: int| 0 <= j < r.len() implies r[j] == ops[n - 1 - j] by {
                    if j == 0 {
                        assert(r[0] == (op.0, op.1));
                        assert(ops[n - 1] == op);
                    } else {
                        assert(r[j] == r0.drop_last()[j - 1]);
                        assert(r0.drop_last()[j - 1] == r0[j - 1]);
                        assert(r0[j - 1] == ops0[ops0.len() - 1 - (j - 1)]);
                        assert(ops0[n - 1 - j] == ops[n - 1 - j]);
                    }
                }
            }
        }
    }
}

/// A bounded LRU map from path strings to preview values.
pub struct PreviewCache<V> {
    entries: Vec<(String, V)>,
    capacity: usize,
}

impl<V> PreviewCache<V> {
    /// The abstract model: entries from most recently used to least recently
    /// used, each as `(key view, value)`.
    pub closed spec fn view(&self) -> Seq<(Seq<char>, V)> {
        Seq::new(self.entries@.len(), |i: int| (self.entries@[i].0@, self.entries@[i].1))
    }

    /// The fixed capacity the cache was created with.
    pub closed spec fn cap(&self) -> nat {
        self.capacity as nat
    }

    /// Well-formedness: distinct keys, never more entries than the capacity.
    pub open spec fn wf(&self) -> bool {
        &&& distinct_keys(self@)
        &&& self@.len() <= self.cap()
    }

    /// Creates an empty cache whose size never exceeds `capacity`.
    pub fn new(capacity: usize) -> (c: PreviewCache<V>)
        ensures
            c.wf(),
            c@ == Seq::<(Seq<char>, V)>::empty(),
            c.cap() == capacity,
    {
        let c = PreviewCache { entries: Vec::new(), capacity };
        proof {
            assert(c@ =~= Seq::<(Seq<char>, V)>::empty());
        }
        c
    }

    /// The number of cached entries.
    pub fn len(&self) -> (n: usize)
        ensures
            n == self@.len(),
    {
        self.entries.len()
    }

    /// The capacity the cache was created with.
    pub fn capacity(&self) -> (n: usize)
        ensures
            n == self.cap(),
    {
        self.capacity
    }

    /// The cached keys, from most recently used to least recently used.
    pub fn keys(&self) -> (r: Vec<String>)
        ensures
            r@.len() == self@.len(),
            forall|i: int| 0 <= i < r@.len() ==> r@[i]@ == self@[i].0,
    {
        let n = self.entries.len();
        let mut r: Vec<String> = Vec::new();
        let mut i: usize = 0;
        while i < n
            invariant
                i <= n,
                n == self@.len(),
                n == self.entries@.len(),
                r@.len() == i,
                forall|j: int| 0 <= j < i ==> r@[j]@ == self@[j].0,
            decreases n - i,
        {
            r.push(self.entries[i].0.clone());
            i += 1;
        }
        r
    }

    /// The position of `key`, if present.
    fn index_of(&self, key: &String) -> (r: Option<usize>)
        ensures
            match r {
                Some(i) => i < self@.len() && self@[i as int].0 == key@,
                None => !model_has(self@, key@),
            },
    {
        let n = self.entries.len();
        let mut i: usize = 0;
        while i < n
            invariant
                n == self@.len(),
                i <= n,
                forall|j: int| 0 <= j < i ==> self@[j].0 != key@,
            decreases n - i,
        {
            if self.entries[i].0 == *key {
                return Some(i);
            }
            i += 1;
        }
        None
    }

    /// Membership check; does not refresh recency.
    pub fn contains(&self, key: &String) -> (r: bool)
        ensures
            r == model_has(self@, key@),
    {
        match self.index_of(key) {
            Some(i) => {
                proof {
                    assert(model_has(self@, key@)) by {
                        assert(self@[i as int].0 == key@);
                    }
                }
                true
            },
            None => false,
        }
    }

    /// Looks `key` up; on a hit, refreshes its recency (moves the entry to
    /// the front of the model) and returns a reference to the value.
    pub fn get(&mut self, key: &String) -> (r: Option<&V>)
        requires
            old(self).wf(),
        ensures
            final(self).wf(),
            final(self).cap() == old(self).cap(),
            match r {
                Some(v) => model_has(old(self)@, key@) && *v == model_value(old(self)@, key@)
                    && final(self)@ == model_promote(old(self)@, key@),
                None => !model_has(old(self)@, key@) && final(self)@ == old(self)@,
            },
    {
        let ghost s0 = self@;
        match self.index_of(key) {
            Some(i) => {
                proof {
                    lemma_index_unique(s0, key@, i as int);
                }
                let entry = self.entries.remove(i);
                self.entries.insert(0, entry);
                proof {
                    assert(self@ =~= model_promote(s0, key@)) by {
                        let idx = i as int;
                        assert(self.entries@ == old(self).entries@.remove(idx).insert(
                            0,
                            old(self).entries@[idx],
                        ));
                        assert forall|m: int| 0 <= m < self@.len() implies self@[m]
                            == model_promote(s0, key@)[m] by {
                            if m == 0 {
                            } else if m <= idx {
                                assert(self.entries@[m] == old(self).entries@[m - 1]);
                                assert(s0.remove(idx)[m - 1] == s0[m - 1]);
                            } else {
                                assert(self.entries@[m] == old(self).entries@[m]);
                                assert(s0.remove(idx)[m - 1] == s0[m]);
                            }
                        }
                    }
                    lemma_model_promote_keys(s0, key@, key@);
                }
                Some(&self.entries[0].1)
            },
            None => None,
        }
    }

    /// Inserts or replaces the entry for `key`, refreshing its recency; when
    /// the cache is full and `key` is new, the least-recently-used entry is
    /// evicted first. With capacity zero nothing is stored.
    pub fn put(&mut self, key: String, value: V)
        requires
            old(self).wf(),
        ensures
            final(self).wf(),
            final(self).cap() == old(self).cap(),
            final(self)@ == model_put(old(self)@, old(self).cap(), key@, value),
    {
        let ghost s0 = self@;
        proof {
            lemma_model_put_wf(s0, old(self).cap(), key@, value);
        }
        if self.capacity == 0 {
            return ;
        }
        match self.index_of(&key) {
            Some(i) => {
                proof {
                    lemma_index_unique(s0, key@, i as int);
                }
                let _replaced = self.entries.remove(i);
                self.entries.insert(0, (key, value));
                proof {
                    let idx = i as int;
                    assert(self@ =~= model_put(s0, old(self).cap(), key@, value)) by {
                        assert forall|m: int| 0 <= m < self@.len() implies self@[m] == (seq![
                            (key@, value),
                        ] + s0.remove(idx))[m] by {
                            if m == 0 {
                            } else if m <= idx {
                                assert(self.entries@[m] == old(self).entries@.remove(idx)[m - 1]);
                                assert(old(self).entries@.remove(idx)[m - 1]
                                    == old(self).entries@[m - 1]);
                                assert(s0.remove(idx)[m - 1] == s0[m - 1]);
                            } else {
                                assert(self.entries@[m] == old(self).entries@.remove(idx)[m - 1]);
                                assert(old(self).entries@.remove(idx)[m - 1]
                                    == old(self).entries@[m]);
                                assert(s0.remove(idx)[m - 1] == s0[m]);
                            }
                        }
                    }
                }
            },
            None => {
                if self.entries.len() >= self.capacity {
                    let _evicted = self.entries.pop();
                    proof {
                        assert(self@ =~= s0.drop_last());
                    }
                    self.entries.insert(0, (key, value));
                    proof {
                        assert(self@ =~= seq![(key@, value)] + s0.drop_last());
                    }
                } else {
                    self.entries.insert(0, (key, value));
                    proof {
                        assert(self@ =~= seq![(key@, value)] + s0);
                    }
                }
            },
        }
    }
}

} // verus!
