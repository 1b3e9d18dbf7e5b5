//! Memoizing single-flight cache.
//!
//! A `MemoCache` maps string keys to values produced by a caller-run
//! computation. Because the computation suspends (it is a backing-store
//! read), the cache is driven in two phases: `get_begin` tells the caller
//! whether a fresh value is cached, whether it must run the computation
//! itself (it is the leader), or whether another caller's computation for the
//! same key is already in flight and it should wait for that outcome. The
//! leader reports the outcome through `finish_ok` or `finish_err`; a failure
//! is never cached, so the next lookup starts the computation again. Entries
//! expire a fixed time-to-live after successful population and are then
//! treated as absent.
//!
//! Waiters only observe: one that stops waiting (its request was aborted)
//! changes nothing here, so abandoning a wait never cancels the shared
//! computation that other waiters still need.

use vstd::pervasive::unreached;
use vstd::prelude::*;

verus! {

/// State of one cache slot: either a computation for the key is in flight
/// (with the number of callers waiting on it besides the leader), or a
/// computed value stands together with the instant it stops being fresh.
pub enum Slot<V> {
    Pending { waiters: u64 },
    Ready { value: V, expires_at: u64 },
}

/// What a caller that begins a get-or-compute must do next.
#[derive(Clone, Copy, PartialEq, Eq, Structural, Debug)]
pub enum GetStep {
    /// A fresh value is cached: read it with `read_fresh`; no computation runs.
    HitFresh,
    /// The caller is the leader: it runs the computation and reports the
    /// outcome through `finish_ok` or `finish_err`.
    LeadCompute,
    /// Another caller's computation is in flight: wait for its outcome.
    JoinWait,
}

struct Entry<V> {
    key: String,
    slot: Slot<V>,
}

/// Memoizing single-flight cache: a table from string keys to slots, with one
/// fixed time-to-live for every entry.
pub struct MemoCache<V> {
    entries: Vec<Entry<V>>,
    ttl: u64,
}

/// A fresh value for `k` stands in `m` at instant `now`.
pub open spec fn spec_fresh<V>(m: Map<Seq<char>, Slot<V>>, k: Seq<char>, now: u64) -> bool {
    m.contains_key(k) && m[k] is Ready && now < m[k]->expires_at
}

/// A computation for `k` is in flight in `m`.
pub open spec fn spec_pending<V>(m: Map<Seq<char>, Slot<V>>, k: Seq<char>) -> bool {
    m.contains_key(k) && m[k] is Pending
}

/// The value stored for `k`.
pub open spec fn spec_fresh_value<V>(m: Map<Seq<char>, Slot<V>>, k: Seq<char>) -> V
    recommends
        m.contains_key(k),
        m[k] is Ready,
{
    m[k]->value
}

/// Waiters recorded for the in-flight computation for `k`.
pub open spec fn spec_waiters<V>(m: Map<Seq<char>, Slot<V>>, k: Seq<char>) -> u64
    recommends
        spec_pending(m, k),
{
    m[k]->waiters
}

/// Expiry instant of an entry populated at `now`, clamped at the top of the
/// clock's range.
pub open spec fn spec_expiry(now: u64, ttl: u64) -> u64 {
    if now + ttl > u64::MAX {
        u64::MAX
    } else {
        (now + ttl) as u64
    }
}

pub open spec fn spec_inc_waiters(w: u64) -> u64 {
    if w < u64::MAX {
        (w + 1) as u64
    } else {
        u64::MAX
    }
}

/// The step handed to a caller that begins a get-or-compute on state `m`.
pub open spec fn spec_begin_kind<V>(m: Map<Seq<char>, Slot<V>>, k: Seq<char>, now: u64) -> GetStep {
    if spec_fresh(m, k, now) {
        GetStep::HitFresh
    } else if spec_pending(m, k) {
        GetStep::JoinWait
    } else {
        GetStep::LeadCompute
    }
}

/// The cache state after a caller begins a get-or-compute on state `m`.
pub open spec fn spec_begin_next<V>(m: Map<Seq<char>, Slot<V>>, k: Seq<char>, now: u64) -> Map<
    Seq<char>,
    Slot<V>,
> {
    if spec_fresh(m, k, now) {
        m
    } else if spec_pending(m, k) {
        m.insert(k, (Slot::Pending { waiters: spec_inc_waiters(spec_waiters(m, k)) }))
    } else {
        m.insert(k, (Slot::Pending { waiters: 0 }))
    }
}

spec fn assoc_map<V>(s: Seq<Entry<V>>) -> Map<Seq<char>, Slot<V>>
    decreases s.len(),
{
    if s.len() == 0 {
        Map::empty()
    } else {
        assoc_map(s.drop_last()).insert(s.last().key@, s.last().slot)
    }
}

spec fn unique_keys<V>(s: Seq<Entry<V>>) -> bool {
    forall|i: int, j: int| 0 <= i < j < s.len() ==> s[i].key@ != s[j].key@
}

proof fn lemma_assoc_contains<V>(s: Seq<Entry<V>>, k: Seq<char>)
    ensures
        assoc_map(s).contains_key(k) <==> exists|i: int| 0 <= i < s.len() && s[i].key@ == k,
    decreases s.len(),
{
    if s.len() > 0 {
        let s0 = s.drop_last();
        lemma_assoc_contains(s0, k);
        if assoc_map(s).contains_key(k) {
            if k == s.last().key@ {
                assert(s[s.len() - 1].key@ == k);
            } else {
                let i = choose|i: int| 0 <= i < s0.len() && s0[i].key@ == k;
                assert(s[i].key@ == k);
            }
        }
        if exists|i: int| 0 <= i < s.len() && s[i].key@ == k {
            let i = choose|i: int| 0 <= i < s.len() && s[i].key@ == k;
            if i < s.len() - 1 {
                assert(s0[i].key@ == k);
            }
        }
    }
}

proof fn lemma_assoc_at<V>(s: Seq<Entry<V>>, i: int)
    requires
        unique_keys(s),
        0 <= i < s.len(),
    ensures
        assoc_map(s).contains_key(s[i].key@),
        assoc_map(s)[s[i].key@] == s[i].slot,
    decreases s.len(),
{
    if i < s.len() - 1 {
        let s0 = s.drop_last();
        lemma_assoc_at(s0, i);
        assert(s[i].key@ != s[s.len() - 1].key@);
    }
}

proof fn lemma_assoc_update<V>(s: Seq<Entry<V>>, i: int, e: Entry<V>)
    requires
        unique_keys(s),
        0 <= i < s.len(),
        e.key@ == s[i].key@,
    ensures
        assoc_map(s.update(i, e)) == assoc_map(s).insert(e.key@, e.slot),
        unique_keys(s.update(i, e)),
    decreases s.len(),
{
    let t = s.update(i, e);
    assert(forall|x: int| 0 <= x < t.len() ==> t[x].key@ == s[x].key@);
    if i == s.len() - 1 {
        assert(t.drop_last() =~= s.drop_last());
        assert(t.last() == e);
        assert(assoc_map(t) =~= assoc_map(s).insert(e.key@, e.slot));
    } else {
        lemma_assoc_update(s.drop_last(), i, e);
        assert(t.drop_last() =~= s.drop_last().update(i, e));
        assert(t.last() == s.last());
        assert(s[i].key@ != s[s.len() - 1].key@);
        assert(assoc_map(t) =~= assoc_map(s).insert(e.key@, e.slot));
    }
}

proof fn lemma_assoc_remove<V>(s: Seq<Entry<V>>, i: int)
    requires
        unique_keys(s),
        0 <= i < s.len(),
    ensures
        assoc_map(s.remove(i)) == assoc_map(s).remove(s[i].key@),
        unique_keys(s.remove(i)),
    decreases s.len(),
{
    let t = s.remove(i);
    if i == s.len() - 1 {
        assert(t =~= s.drop_last());
        lemma_assoc_contains(t, s[i].key@);
        assert(forall|j: int| 0 <= j < t.len() ==> t[j].key@ != s[i].key@);
        assert(assoc_map(t) =~= assoc_map(s).remove(s[i].key@));
    } else {
        lemma_assoc_remove(s.drop_last(), i);
        assert(t.drop_last() =~= s.drop_last().remove(i));
        assert(t.last() == s.last());
        assert(s[i].key@ != s[s.len() - 1].key@);
        assert(assoc_map(t) =~= assoc_map(s).remove(s[i].key@));
    }
    assert forall|p: int, q: int| 0 <= p < q < t.len() implies t[p].key@ != t[q].key@ by {
        let sp = if p < i {
            p
        } else {
            p + 1
        };
        let sq = if q < i {
            q
        } else {
            q + 1
        };
        assert(t[p] == s[sp]);
        assert(t[q] == s[sq]);
    }
}

impl<V> MemoCache<V> {
    /// Everything the contracts say about a cache is said of this map.
    pub closed spec fn model(self) -> Map<Seq<char>, Slot<V>> {
        assoc_map(self.entries@)
    }

    pub closed spec fn wf(self) -> bool {
        unique_keys(self.entries@)
    }

    pub closed spec fn spec_ttl(self) -> u64 {
        self.ttl
    }

    pub fn new(ttl: u64) -> (c: Self)
        ensures
            c.wf(),
            c.model() == Map::<Seq<char>, Slot<V>>::empty(),
            c.spec_ttl() == ttl,
    {
        Self { entries: Vec::new(), ttl }
    }

    pub fn ttl(&self) -> (t: u64)
        ensures
            t == self.spec_ttl(),
    {
        self.ttl
    }

    fn find(&self, key: &String) -> (r: Option<usize>)
        requires
            self.wf(),
        ensures
            r is None ==> !self.model().contains_key(key@),
            r matches Some(i) ==> i < self.entries@.len() && self.entries@[i as int].key@ == key@
                && self.model().contains_key(key@) && self.model()[key@] == self.entries@[
                i as int
            ].slot,
    {
        let n = self.entries.len();
        let mut i: usize = 0;
        while i < n
            invariant
                n == self.entries@.len(),
                i <= n,
                self.wf(),
                forall|j: int| 0 <= j < i ==> self.entries@[j].key@ != key@,
            decreases n - i,
        {
            if self.entries[i].key == *key {
                proof {
                    lemma_assoc_at(self.entries@, i as int);
                }
                return Some(i);
            }
            i += 1;
        }
        proof {
            lemma_assoc_contains(self.entries@, key@);
        }
        None
    }

    /// Is a computation for `key` in flight? Lets an unverified caller test
    /// the precondition of `finish_ok` / `finish_err` before reporting.
    pub fn is_pending(&self, key: &String) -> (b: bool)
        requires
            self.wf(),
        ensures
            b == spec_pending(self.model(), key@),
    {
        let idx = self.find(key);
        match idx {
            Some(i) => match &self.entries[i].slot {
                Slot::Pending { .. } => true,
                Slot::Ready { .. } => false,
            },
            None => false,
        }
    }

    /// Begin a get-or-compute for `key` at instant `now`; the returned step
    /// says whether the caller reads the cached value, leads the computation,
    /// or waits on the computation already in flight.
    pub fn get_begin(&mut self, key: &String, now: u64) -> (s: GetStep)
        requires
            old(self).wf(),
        ensures
            final(self).wf(),
            final(self).spec_ttl() == old(self).spec_ttl(),
            s == spec_begin_kind(old(self).model(), key@, now),
            final(self).model() == spec_begin_next(old(self).model(), key@, now),
    {
        let idx = self.find(key);
        match idx {
            Some(i) => {
                let (is_ready, exp, w): (bool, u64, u64) = match &self.entries[i].slot {
                    Slot::Ready { expires_at, .. } => (true, *expires_at, 0u64),
                    Slot::Pending { waiters } => (false, 0u64, *waiters),
                };
                if is_ready && now < exp {
                    GetStep::HitFresh
                } else {
                    let new_w: u64 = if is_ready {
                        0
                    } else if w < u64::MAX {
                        w + 1
                    } else {
                        w
                    };
                    let e = Entry { key: key.clone(), slot: Slot::Pending { waiters: new_w } };
                    proof {
                        lemma_assoc_update(self.entries@, i as int, e);
                        assert(self.entries@.update(i as int, e) =~= self.entries@.remove(
                            i as int,
                        ).insert(i as int, e));
                    }
                    self.entries.remove(i);
                    self.entries.insert(i, e);
                    if is_ready {
                        GetStep::LeadCompute
                    } else {
                        GetStep::JoinWait
                    }
                }
            },
            None => {
                proof {
                    lemma_assoc_contains(self.entries@, key@);
                }
                let e = Entry { key: key.clone(), slot: Slot::Pending { waiters: 0 } };
                let ghost s0 = self.entries@;
                self.entries.push(e);
                proof {
                    assert(self.entries@.drop_last() =~= s0);
                }
                GetStep::LeadCompute
            },
        }
    }

    /// Read the fresh value that `get_begin` reported with `HitFresh`.
    pub fn read_fresh(&self, key: &String, now: u64) -> (v: &V)
        requires
            self.wf(),
            spec_fresh(self.model(), key@, now),
        ensures
            *v == spec_fresh_value(self.model(), key@),
    {
        let idx = self.find(key);
        match idx {
            Some(i) => match &self.entries[i].slot {
                Slot::Ready { value, .. } => value,
                Slot::Pending { .. } => unreached(),
            },
            None => unreached(),
        }
    }

    /// The leader reports that its computation produced `value`: the value is
    /// cached and stays fresh for one time-to-live from `now`. Returns how
    /// many waiters were attached to the flight; the caller hands each of
    /// them this same value.
    pub fn finish_ok(&mut self, key: &String, value: V, now: u64) -> (w: u64)
        requires
            old(self).wf(),
            spec_pending(old(self).model(), key@),
        ensures
            final(self).wf(),
            final(self).spec_ttl() == old(self).spec_ttl(),
            final(self).model() == old(self).model().insert(
                key@,
                (Slot::Ready { value, expires_at: spec_expiry(now, old(self).spec_ttl()) }),
            ),
            w == spec_waiters(old(self).model(), key@),
    {
        let idx = self.find(key);
        match idx {
            Some(i) => {
                let w: u64 = match &self.entries[i].slot {
                    Slot::Pending { waiters } => *waiters,
                    Slot::Ready { .. } => unreached(),
                };
                let exp: u64 = if now > u64::MAX - self.ttl {
                    u64::MAX
                } else {
                    now + self.ttl
                };
                let e = Entry { key: key.clone(), slot: Slot::Ready { value, expires_at: exp } };
                proof {
                    lemma_assoc_update(self.entries@, i as int, e);
                    assert(self.entries@.update(i as int, e) =~= self.entries@.remove(
                        i as int,
                    ).insert(i as int, e));
                }
                self.entries.remove(i);
                self.entries.insert(i, e);
                w
            },
            None => unreached(),
        }
    }

    /// The leader reports that its computation failed. The failure is not
    /// cached: the entry is dropped, so the next lookup for the key starts
    /// the computation again. Returns how many waiters were attached; the
    /// caller hands each of them this same failure.
    pub fn finish_err(&mut self, key: &String) -> (w: u64)
        requires
            old(self).wf(),
            spec_pending(old(self).model(), key@),
        ensures
            final(self).wf(),
            final(self).spec_ttl() == old(self).spec_ttl(),
            final(self).model() == old(self).model().remove(key@),
            w == spec_waiters(old(self).model(), key@),
    {
        let idx = self.find(key);
        match idx {
            Some(i) => {
                let w: u64 = match &self.entries[i].slot {
                    Slot::Pending { waiters } => *waiters,
                    Slot::Ready { .. } => unreached(),
                };
                proof {
                    lemma_assoc_remove(self.entries@, i as int);
                }
                self.entries.remove(i);
                w
            },
            None => unreached(),
        }
    }
}

/// The steps handed out by a run of `n` begin operations for one key with no
/// intervening completion.
pub open spec fn spec_begin_run<V>(
    m: Map<Seq<char>, Slot<V>>,
    k: Seq<char>,
    now: u64,
    n: nat,
) -> Seq<GetStep>
    decreases n,
{
    if n == 0 {
        Seq::empty()
    } else {
        seq![spec_begin_kind(m, k, now)] + spec_begin_run(
            spec_begin_next(m, k, now),
            k,
            now,
            (n - 1) as nat,
        )
    }
}

/// While a computation for `k` is in flight, every further caller that begins
/// a lookup for `k` waits on it; none leads a second computation.
pub proof fn lemma_pending_all_wait<V>(m: Map<Seq<char>, Slot<V>>, k: Seq<char>, now: u64, n: nat)
    requires
        spec_pending(m, k),
    ensures
        spec_begin_run(m, k, now, n).len() == n,
        forall|i: int| 0 <= i < n ==> spec_begin_run(m, k, now, n)[i] == GetStep::JoinWait,
    decreases n,
{
    if n > 0 {
        lemma_pending_all_wait(spec_begin_next(m, k, now), k, now, (n - 1) as nat);
    }
}

/// Law (single flight): when any number of callers begin a get-or-compute for
/// the same key while no fresh entry and no flight exists, exactly the first
/// becomes the leader — the computation runs once — and every other caller
/// waits for that one outcome.
pub proof fn lemma_single_flight<V>(m: Map<Seq<char>, Slot<V>>, k: Seq<char>, now: u64, n: nat)
    requires
        !spec_fresh(m, k, now),
        !spec_pending(m, k),
        n >= 1,
    ensures
        spec_begin_run(m, k, now, n).len() == n,
        spec_begin_run(m, k, now, n)[0] == GetStep::LeadCompute,
        forall|i: int| 1 <= i < n ==> spec_begin_run(m, k, now, n)[i] == GetStep::JoinWait,
{
    let m1 = spec_begin_next(m, k, now);
    lemma_pending_all_wait(m1, k, now, (n - 1) as nat);
    assert forall|i: int| 1 <= i < n implies spec_begin_run(m, k, now, n)[i]
        == GetStep::JoinWait by {
        assert(spec_begin_run(m, k, now, n)[i] == spec_begin_run(m1, k, now, (n - 1) as nat)[i
            - 1]);
    }
}

/// Law (completion serves all): once the leader completes with a value, every
/// caller that looks the key up before the entry expires is served exactly
/// that value, and no recomputation starts.
pub proof fn lemma_completion_serves_all<V>(
    m: Map<Seq<char>, Slot<V>>,
    k: Seq<char>,
    v: V,
    e: u64,
    t: u64,
)
    requires
        t < e,
    ensures
        ({
            let m2 = m.insert(k, (Slot::Ready { value: v, expires_at: e }));
            spec_begin_kind(m2, k, t) == GetStep::HitFresh && spec_fresh_value(m2, k) == v
                && spec_begin_next(m2, k, t) == m2
        }),
{
}

/// Law (expiry): an expired entry is not served; the next lookup for its key
/// leads a recomputation.
pub proof fn lemma_expired_recomputes<V>(m: Map<Seq<char>, Slot<V>>, k: Seq<char>, now: u64)
    requires
        m.contains_key(k),
        m[k] is Ready,
        now >= m[k]->expires_at,
    ensures
        spec_begin_kind(m, k, now) == GetStep::LeadCompute,
{
}

/// Law (failure not cached): after a leader reports failure for `k` — which
/// removes the entry — the next lookup for `k` leads the computation again
/// instead of being served a remembered failure.
pub proof fn lemma_failure_not_cached<V>(m: Map<Seq<char>, Slot<V>>, k: Seq<char>, now: u64)
    ensures
        spec_begin_kind(m.remove(k), k, now) == GetStep::LeadCompute,
{
}

} // verus!
