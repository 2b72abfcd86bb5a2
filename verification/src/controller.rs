//! The preview controller: the state machine that coordinates selection
//! changes, the single outstanding decode request, and the preview cache.
//!
//! The controller owns three pieces of state: the currently selected path,
//! the pending marker (at most one path whose decode has been requested but
//! whose result has not yet arrived), and the bounded LRU cache of decoded
//! previews. It never performs the decode itself: `select` tells its caller
//! which path, if any, must be handed to the decode worker, and
//! `handle_result` is fed each completed decode drained from the result
//! queue. Rendering consults `get_current_protocol`, which never blocks.

use vstd::prelude::*;

use crate::cache::PreviewCache;
use crate::cache::distinct_keys;
use crate::cache::model_has;
use crate::cache::model_promote;
use crate::cache::model_put;
use crate::cache::model_value;
use crate::cache::lemma_model_promote_keys;
use crate::cache::lemma_model_put_wf;
use crate::cache::lemma_model_put_absent;

verus! {

/// The view of an optional path.
pub open spec fn opt_view(o: Option<String>) -> Option<Seq<char>> {
    match o {
        Some(s) => Some(s@),
        None => None,
    }
}

/// How many elements of `s` equal `p`.
pub open spec fn count_matching(s: Seq<Seq<char>>, p: Seq<char>) -> nat
    decreases s.len(),
{
    if s.len() == 0 {
        0
    } else {
        count_matching(s.drop_last(), p) + if s.last() == p {
            1nat
        } else {
            0nat
        }
    }
}

/// Orchestrates the preview cache, the currently selected path, and the
/// single outstanding decode request.
pub struct PreviewController<V> {
    current: Option<String>,
    pending: Option<String>,
    cache: PreviewCache<V>,
    requests: Ghost<Seq<Seq<char>>>,
}

impl<V> PreviewController<V> {
    /// The currently selected path.
    pub closed spec fn current_spec(&self) -> Option<Seq<char>> {
        opt_view(self.current)
    }

    /// The pending marker: the path whose decode was requested and has not
    /// been answered yet.
    pub closed spec fn pending_spec(&self) -> Option<Seq<char>> {
        opt_view(self.pending)
    }

    /// The model of the cache, most recently used first.
    pub closed spec fn cache_spec(&self) -> Seq<(Seq<char>, V)> {
        self.cache@
    }

    /// The cache capacity.
    pub closed spec fn cap_spec(&self) -> nat {
        self.cache.cap()
    }

    /// The history of every decode request the controller has asked its
    /// caller to enqueue, oldest first.
    pub closed spec fn requests_spec(&self) -> Seq<Seq<char>> {
        self.requests@
    }

    /// The controller invariant: the cache is well formed and a pending path
    /// is never already cached.
    pub open spec fn inv(&self) -> bool {
        &&& distinct_keys(self.cache_spec())
        &&& self.cache_spec().len() <= self.cap_spec()
        &&& match self.pending_spec() {
            Some(p) => !model_has(self.cache_spec(), p),
            None => true,
        }
    }

    /// Creates a controller with no selection, no pending request, and an
    /// empty cache of the given capacity.
    pub fn new(capacity: usize) -> (c: PreviewController<V>)
        ensures
            c.inv(),
            c.current_spec() == None::<Seq<char>>,
            c.pending_spec() == None::<Seq<char>>,
            c.cache_spec() == Seq::<(Seq<char>, V)>::empty(),
            c.cap_spec() == capacity,
            c.requests_spec() == Seq::<Seq<char>>::empty(),
    {
        PreviewController {
            current: None,
            pending: None,
            cache: PreviewCache::new(capacity),
            requests: Ghost(Seq::empty()),
        }
    }

    /// The currently selected path, as stored.
    pub fn current_path(&self) -> (r: &Option<String>)
        ensures
            opt_view(*r) == self.current_spec(),
    {
        &self.current
    }

    /// The pending marker, as stored.
    pub fn pending(&self) -> (r: &Option<String>)
        ensures
            opt_view(*r) == self.pending_spec(),
    {
        &self.pending
    }

    /// The number of cached previews.
    pub fn cache_len(&self) -> (n: usize)
        ensures
            n == self.cache_spec().len(),
    {
        self.cache.len()
    }

    /// Whether a preview for `path` is cached; does not refresh recency.
    pub fn is_cached(&self, path: &String) -> (r: bool)
        ensures
            r == model_has(self.cache_spec(), path@),
    {
        self.cache.contains(path)
    }
}

/// What one selection change does to the controller state. `enq` is the path
/// the caller was told to enqueue on the request channel, if any: the
/// selected path becomes current; the cache is untouched; a decode is
/// requested only when the selection actually changed, the path is not
/// cached, and no request for the same path is already pending.
pub open spec fn select_transition<V>(
    pre: PreviewController<V>,
    post: PreviewController<V>,
    p: Seq<char>,
    enq: Option<Seq<char>>,
) -> bool {
    &&& post.cache_spec() == pre.cache_spec()
    &&& post.cap_spec() == pre.cap_spec()
    &&& post.current_spec() == Some(p)
    &&& if pre.current_spec() == Some(p) || model_has(pre.cache_spec(), p) || pre.pending_spec()
        == Some(p) {
        &&& enq == None::<Seq<char>>
        &&& post.pending_spec() == pre.pending_spec()
        &&& post.requests_spec() == pre.requests_spec()
    } else {
        &&& enq == Some(p)
        &&& post.pending_spec() == Some(p)
        &&& post.requests_spec() == pre.requests_spec().push(p)
    }
}

/// What the arrival of one decode result does to the controller state.
/// `outcome` is `Some(v)` for a successful decode of `p` and `None` for a
/// failure: a success is cached (evicting per LRU if needed), a failure
/// leaves the cache untouched, and in both cases a pending marker for `p`
/// is cleared. The current selection and the request history never change.
pub open spec fn result_transition<V>(
    pre: PreviewController<V>,
    post: PreviewController<V>,
    p: Seq<char>,
    outcome: Option<V>,
) -> bool {
    &&& post.current_spec() == pre.current_spec()
    &&& post.cap_spec() == pre.cap_spec()
    &&& post.requests_spec() == pre.requests_spec()
    &&& post.pending_spec() == (if pre.pending_spec() == Some(p) {
        None::<Seq<char>>
    } else {
        pre.pending_spec()
    })
    &&& match outcome {
        Some(v) => post.cache_spec() == model_put(pre.cache_spec(), pre.cap_spec(), p, v),
        None => post.cache_spec() == pre.cache_spec(),
    }
}

/// The view of a decode outcome: the decoded value on success, nothing on
/// failure.
pub open spec fn outcome_view<V>(outcome: Result<V, String>) -> Option<V> {
    match outcome {
        Ok(v) => Some(v),
        Err(_) => None,
    }
}

impl<V> PreviewController<V> {
    /// Applies a selection change to `path`. Returns the path the caller must
    /// send to the decode worker, or `None` when no new request is needed
    /// (already selected, already cached, or already pending).
    pub fn select(&mut self, path: String) -> (enq: Option<String>)
        requires
            old(self).inv(),
        ensures
            final(self).inv(),
            select_transition(*old(self), *final(self), path@, opt_view(enq)),
    {
        let is_same = match &self.current {
            Some(c) => *c == path,
            None => false,
        };
        if is_same {
            self.current = Some(path);
            return None;
        }
        self.current = Some(path.clone());
        if self.cache.contains(&path) {
            return None;
        }
        let is_pending = match &self.pending {
            Some(q) => *q == path,
            None => false,
        };
        if is_pending {
            proof {
                assert(self.pending_spec() == Some(path@));
            }
            return None;
        }
        self.pending = Some(path.clone());
        proof {
            self.requests@ = self.requests@.push(path@);
        }
        Some(path)
    }

    /// Records the arrival of one decode result for `path`: a successful
    /// decode is cached, a failed one is not, and a pending marker for
    /// `path` is cleared either way. Returns the error description of a
    /// failed decode so the caller can log it.
    pub fn handle_result(&mut self, path: String, outcome: Result<V, String>) -> (err: Option<
        String,
    >)
        requires
            old(self).inv(),
        ensures
            final(self).inv(),
            result_transition(*old(self), *final(self), path@, outcome_view(outcome)),
            match outcome {
                Ok(v) => err == None::<String> && (old(self).cap_spec() > 0 ==> model_has(
                    final(self).cache_spec(),
                    path@,
                ) && model_value(final(self).cache_spec(), path@) == v),
                Err(m) => err == Some(m),
            },
    {
        let was_pending = match &self.pending {
            Some(q) => *q == path,
            None => false,
        };
        if was_pending {
            self.pending = None;
        }
        let ghost s0 = self.cache@;
        let ghost cap = self.cache.cap();
        match outcome {
            Ok(value) => {
                proof {
                    lemma_model_put_wf(s0, cap, path@, value);
                }
                self.cache.put(path, value);
                proof {
                    if self.pending is Some {
                        let q = self.pending->0@;
                        lemma_model_put_absent(s0, cap, path@, value, q);
                    }
                }
                None
            },
            Err(message) => Some(message),
        }
    }

    /// The preview to draw for the current selection, if it is cached; a hit
    /// refreshes the entry's recency. Never blocks: a miss simply yields
    /// `None`.
    pub fn get_current_protocol(&mut self) -> (r: Option<&V>)
        requires
            old(self).inv(),
        ensures
            final(self).inv(),
            final(self).current_spec() == old(self).current_spec(),
            final(self).pending_spec() == old(self).pending_spec(),
            final(self).requests_spec() == old(self).requests_spec(),
            final(self).cap_spec() == old(self).cap_spec(),
            match r {
                Some(v) => {
                    &&& old(self).current_spec() matches Some(p)
                    &&& model_has(old(self).cache_spec(), old(self).current_spec()->0)
                    &&& *v == model_value(old(self).cache_spec(), old(self).current_spec()->0)
                    &&& final(self).cache_spec() == model_promote(
                        old(self).cache_spec(),
                        old(self).current_spec()->0,
                    )
                },
                None => {
                    &&& final(self).cache_spec() == old(self).cache_spec()
                    &&& match old(self).current_spec() {
                        Some(p) => !model_has(old(self).cache_spec(), p),
                        None => true,
                    }
                },
            },
    {
        let ghost s0 = self.cache@;
        match &self.current {
            Some(p) => {
                let r = self.cache.get(p);
                proof {
                    if r is Some {
                        lemma_model_promote_keys(s0, p@, p@);
                        if self.pending is Some {
                            lemma_model_promote_keys(s0, p@, self.pending->0@);
                        }
                    }
                }
                r
            },
            None => None,
        }
    }
}

/// Coalescing: a selection of a path that is already pending never enqueues
/// another decode request and leaves the whole request history unchanged.
pub proof fn lemma_pending_coalesces<V>(
    pre: PreviewController<V>,
    post: PreviewController<V>,
    p: Seq<char>,
    enq: Option<Seq<char>>,
)
    requires
        pre.pending_spec() == Some(p),
        select_transition(pre, post, p, enq),
    ensures
        enq == None::<Seq<char>>,
        post.requests_spec() == pre.requests_spec(),
{
}

/// Coalescing across two selections: however a state is reached, selecting
/// the same path twice in a row sends at most one request for it in total —
/// the second selection never enqueues, and the request history gains at
/// most one occurrence of the path.
pub proof fn lemma_coalescing<V>(
    pre: PreviewController<V>,
    mid: PreviewController<V>,
    post: PreviewController<V>,
    p: Seq<char>,
    enq1: Option<Seq<char>>,
    enq2: Option<Seq<char>>,
)
    requires
        select_transition(pre, mid, p, enq1),
        select_transition(mid, post, p, enq2),
    ensures
        enq2 == None::<Seq<char>>,
        post.requests_spec() == mid.requests_spec(),
        count_matching(post.requests_spec(), p) <= count_matching(pre.requests_spec(), p) + 1,
{
    assert(mid.current_spec() == Some(p));
    if pre.current_spec() == Some(p) || model_has(pre.cache_spec(), p) || pre.pending_spec()
        == Some(p) {
        assert(mid.requests_spec() == pre.requests_spec());
    } else {
        assert(mid.requests_spec() == pre.requests_spec().push(p));
        assert(count_matching(pre.requests_spec().push(p), p) <= count_matching(
            pre.requests_spec(),
            p,
        ) + 1) by {
            let r = pre.requests_spec();
            assert(r.push(p).drop_last() =~= r);
            assert(r.push(p).last() == p);
        }
    }
}

/// Idempotent selection: selecting the path that is already current changes
/// nothing — no request is enqueued and cache, pending marker, request
/// history and selection all stay as they were. Since the state is
/// unchanged, repeating the selection any number of times changes nothing
/// either.
pub proof fn lemma_idempotent_selection<V>(
    pre: PreviewController<V>,
    post: PreviewController<V>,
    p: Seq<char>,
    enq: Option<Seq<char>>,
)
    requires
        pre.current_spec() == Some(p),
        select_transition(pre, post, p, enq),
    ensures
        enq == None::<Seq<char>>,
        post.cache_spec() == pre.cache_spec(),
        post.pending_spec() == pre.pending_spec(),
        post.requests_spec() == pre.requests_spec(),
        post.current_spec() == pre.current_spec(),
{
}

/// Failure isolation: a failed decode of path `p` leaves the whole cache
/// unchanged — `p` stays absent if it was absent, every other path keeps its
/// cached value — and clears a pending marker for `p`.
pub proof fn lemma_failure_isolation<V>(
    pre: PreviewController<V>,
    post: PreviewController<V>,
    p: Seq<char>,
)
    requires
        result_transition(pre, post, p, None::<V>),
    ensures
        post.cache_spec() == pre.cache_spec(),
        !model_has(pre.cache_spec(), p) ==> !model_has(post.cache_spec(), p),
        pre.pending_spec() == Some(p) ==> post.pending_spec() == None::<Seq<char>>,
        forall|q: Seq<char>|
            model_has(pre.cache_spec(), q) ==> model_has(post.cache_spec(), q) && model_value(
                post.cache_spec(),
                q,
            ) == model_value(pre.cache_spec(), q),
{
}

/// Stale result tolerance: when the user selects `a`, then `b`, before the
/// decode of `a` completes, a later successful decode of `a` is still cached
/// (available should the user navigate back) even though the current
/// selection is `b`.
pub proof fn lemma_stale_result_cached<V>(
    s0: PreviewController<V>,
    s1: PreviewController<V>,
    s2: PreviewController<V>,
    s3: PreviewController<V>,
    a: Seq<char>,
    b: Seq<char>,
    enq1: Option<Seq<char>>,
    enq2: Option<Seq<char>>,
    v: V,
)
    requires
        s0.inv(),
        s0.cap_spec() >= 1,
        a != b,
        select_transition(s0, s1, a, enq1),
        select_transition(s1, s2, b, enq2),
        result_transition(s2, s3, a, Some(v)),
    ensures
        s3.current_spec() == Some(b),
        model_has(s3.cache_spec(), a),
        model_value(s3.cache_spec(), a) == v,
{
    assert(s2.cache_spec() == s0.cache_spec());
    lemma_model_put_wf(s2.cache_spec(), s2.cap_spec(), a, v);
}

} // verus!
