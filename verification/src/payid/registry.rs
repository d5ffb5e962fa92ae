//! A time-limited cache of Pay ID resolutions (five minutes per entry).

use vstd::prelude::*;
use std::time::{Duration, Instant};
use crate::payid::resolver::ResolvedPayId;
use crate::text::str_eq;

verus! {

#[verifier::external_type_specification]
#[verifier::external_body]
pub struct ExInstant(Instant);

/// Calls `Instant::now`; nothing is promised of the reading.
#[verifier::external_body]
fn instant_now() -> (r: Instant) {
    Instant::now()
}

/// Calls `Instant::elapsed`; nothing is promised of the reading.
#[verifier::external_body]
fn instant_elapsed(i: &Instant) -> (r: Duration) {
    i.elapsed()
}

/// Calls `Duration::as_millis`; the duration is opaque here, so nothing is
/// stated of the count.
#[verifier::external_body]
fn duration_millis(d: &Duration) -> (r: u128) {
    d.as_millis()
}

/// How long a cached resolution stays valid, in milliseconds (five minutes).
pub const CACHE_TTL_MS: u64 = 300_000;

struct CacheEntry {
    resolved: ResolvedPayId,
    cached_at: Instant,
}

/// Cached resolutions by Pay ID, each valid for the cache's time to live.
pub struct PayIdRegistry {
    entries: Vec<(String, CacheEntry)>,
    ttl_ms: u64,
}

impl PayIdRegistry {
    /// The cached Pay IDs and their resolutions, in insertion order.
    pub closed spec fn spec_entries(&self) -> Seq<(Seq<char>, ResolvedPayId)> {
        self.entries@.map_values(|e: (String, CacheEntry)| (e.0@, e.1.resolved))
    }

    /// How long an entry stays valid, in milliseconds.
    pub closed spec fn ttl_ms(&self) -> u64 {
        self.ttl_ms
    }

    /// No Pay ID is cached twice.
    pub open spec fn wf(&self) -> bool {
        forall|i: int, j: int| 0 <= i < j < self.spec_entries().len()
            ==> #[trigger] self.spec_entries()[i].0 != #[trigger] self.spec_entries()[j].0
    }

    /// Whether `key` is cached at index `i`.
    pub open spec fn cached_at_index(&self, i: int, key: Seq<char>) -> bool {
        0 <= i < self.spec_entries().len() && self.spec_entries()[i].0 == key
    }

    /// The cached resolution of `key`, expired or not.
    pub open spec fn entry_spec(&self, key: Seq<char>) -> Option<ResolvedPayId> {
        if exists|i: int| self.cached_at_index(i, key) {
            Some(self.spec_entries()[choose|i: int| self.cached_at_index(i, key)].1)
        } else {
            None
        }
    }

    /// An empty cache with a five-minute time to live.
    pub fn new() -> (r: Self)
        ensures
            r.wf(),
            r.spec_entries().len() == 0,
            r.ttl_ms() == CACHE_TTL_MS,
    {
        let r = PayIdRegistry { entries: Vec::new(), ttl_ms: CACHE_TTL_MS };
        assert(r.spec_entries() =~= Seq::empty());
        r
    }

    fn find(&self, pay_id: &str) -> (r: Option<usize>)
        requires
            self.wf(),
        ensures
            match r {
                Some(i) => self.cached_at_index(i as int, pay_id@) && self.entry_spec(pay_id@) == Some(self.spec_entries()[i as int].1),
                None => self.entry_spec(pay_id@) is None,
            },
    {
        let mut i: usize = 0;
        while i < self.entries.len()
            invariant
                self.wf(),
                0 <= i <= self.entries@.len(),
                forall|k: int| 0 <= k < i ==> !#[trigger] self.cached_at_index(k, pay_id@),
            decreases self.entries@.len() - i,
        {
            let key: &str = self.entries[i].0.as_str();
            let ghost ki = self.spec_entries()[i as int];
            if str_eq(key, pay_id) {
                proof {
                    Self::lemma_entry_unique(*self, i as int, pay_id@);
                }
                return Some(i);
            }
            assert(!self.cached_at_index(i as int, pay_id@));
            i += 1;
        }
        None
    }

    /// The cached resolution of `pay_id` when its entry is `age_ms`
    /// milliseconds old: kept while younger than the time to live.
    pub fn lookup_fresh(&self, pay_id: &str, age_ms: u128) -> (r: Option<ResolvedPayId>)
        requires
            self.wf(),
        ensures
            r == (if age_ms < self.ttl_ms() { self.entry_spec(pay_id@) } else { None }),
    {
        if age_ms >= self.ttl_ms as u128 {
            return None;
        }
        match self.find(pay_id) {
            None => None,
            Some(i) => Some(self.entries[i].1.resolved.copied()),
        }
    }

    /// The cached resolution of `pay_id`, unless it is missing or its entry
    /// is at least `ttl_ms` old by the clock.
    pub fn get(&self, pay_id: &str) -> (r: Option<ResolvedPayId>)
        requires
            self.wf(),
        ensures
            self.entry_spec(pay_id@) is None ==> r is None,
            r is None || r == self.entry_spec(pay_id@),
            exists|age_ms: u128| r == #[trigger] self.fresh_spec(pay_id@, age_ms),
    {
        match self.find(pay_id) {
            None => {
                proof {
                    assert(self.fresh_spec(pay_id@, 0) is None);
                }
                None
            },
            Some(i) => {
                let age = instant_elapsed(&self.entries[i].1.cached_at);
                let age_ms = duration_millis(&age);
                let r = self.lookup_fresh(pay_id, age_ms);
                proof {
                    assert(r == self.fresh_spec(pay_id@, age_ms));
                }
                r
            },
        }
    }

    /// What `lookup_fresh` answers for an entry `age_ms` old.
    pub open spec fn fresh_spec(&self, key: Seq<char>, age_ms: u128) -> Option<ResolvedPayId> {
        if age_ms < self.ttl_ms() { self.entry_spec(key) } else { None }
    }

    /// Caches `resolved` for `pay_id` from now on, replacing any earlier
    /// entry.
    pub fn insert(&mut self, pay_id: String, resolved: ResolvedPayId)
        requires
            old(self).wf(),
        ensures
            final(self).wf(),
            final(self).entry_spec(pay_id@) == Some(resolved),
            forall|k: Seq<char>| k != pay_id@ ==> #[trigger] final(self).entry_spec(k) == old(self).entry_spec(k),
    {
        let ghost key = pay_id@;
        let entry = CacheEntry { resolved, cached_at: instant_now() };
        match self.find(pay_id.as_str()) {
            Some(i) => {
                self.entries.set(i, (pay_id, entry));
                proof {
                    assert forall|a: int, b: int| 0 <= a < b < self.spec_entries().len() implies
                        #[trigger] self.spec_entries()[a].0 != #[trigger] self.spec_entries()[b].0 by {
                        assert(old(self).spec_entries()[a].0 != old(self).spec_entries()[b].0);
                    }
                    Self::lemma_entry_update(*old(self), *self, key);
                    assert(self.cached_at_index(i as int, key));
                    Self::lemma_entry_unique(*self, i as int, key);
                }
            },
            None => {
                self.entries.push((pay_id, entry));
                proof {
                    let n = old(self).spec_entries().len() as int;
                    assert forall|a: int, b: int| 0 <= a < b < self.spec_entries().len() implies
                        #[trigger] self.spec_entries()[a].0 != #[trigger] self.spec_entries()[b].0 by {
                        if b == n {
                            assert(!old(self).cached_at_index(a, key));
                        } else {
                            assert(old(self).spec_entries()[a].0 != old(self).spec_entries()[b].0);
                        }
                    }
                    Self::lemma_entry_update(*old(self), *self, key);
                    assert(self.cached_at_index(n, key));
                    Self::lemma_entry_unique(*self, n, key);
                }
            },
        }
    }

    proof fn lemma_entry_unique(m: Self, i: int, k: Seq<char>)
        requires
            m.wf(),
            m.cached_at_index(i, k),
        ensures
            m.entry_spec(k) == Some(m.spec_entries()[i].1),
    {
        let j = choose|j: int| m.cached_at_index(j, k);
        if j != i {
            if j < i {
                assert(m.spec_entries()[j].0 != m.spec_entries()[i].0);
            } else {
                assert(m.spec_entries()[i].0 != m.spec_entries()[j].0);
            }
        }
    }

    proof fn lemma_entry_update(m0: Self, m1: Self, key: Seq<char>)
        requires
            m0.wf(),
            m1.wf(),
            m1.spec_entries().len() >= m0.spec_entries().len(),
            forall|i: int| 0 <= i < m0.spec_entries().len() && m0.spec_entries()[i].0 != key
                ==> #[trigger] m1.spec_entries()[i] == m0.spec_entries()[i],
            forall|i: int| m0.spec_entries().len() <= i < m1.spec_entries().len() ==> #[trigger] m1.spec_entries()[i].0 == key,
            forall|i: int| 0 <= i < m0.spec_entries().len() && m0.spec_entries()[i].0 == key
                ==> #[trigger] m1.spec_entries()[i].0 == key,
        ensures
            forall|k: Seq<char>| k != key ==> #[trigger] m1.entry_spec(k) == m0.entry_spec(k),
    {
        assert forall|k: Seq<char>| k != key implies #[trigger] m1.entry_spec(k) == m0.entry_spec(k) by {
            if m0.entry_spec(k) is Some {
                let j = choose|j: int| m0.cached_at_index(j, k);
                Self::lemma_entry_unique(m0, j, k);
                assert(m1.spec_entries()[j] == m0.spec_entries()[j]);
                Self::lemma_entry_unique(m1, j, k);
            } else if m1.entry_spec(k) is Some {
                let j = choose|j: int| m1.cached_at_index(j, k);
                if j < m0.spec_entries().len() {
                    if m0.spec_entries()[j].0 == key {
                        assert(m1.spec_entries()[j].0 == key);
                    } else {
                        assert(m0.cached_at_index(j, k));
                    }
                }
            }
        }
    }

    /// Drops the entry of `pay_id`, if any.
    pub fn invalidate(&mut self, pay_id: &str)
        requires
            old(self).wf(),
        ensures
            final(self).wf(),
            final(self).entry_spec(pay_id@) is None,
            forall|k: Seq<char>| k != pay_id@ ==> #[trigger] final(self).entry_spec(k) == old(self).entry_spec(k),
    {
        match self.find(pay_id) {
            None => {},
            Some(i) => {
                let ghost before = self.spec_entries();
                self.entries.remove(i);
                proof {
                    assert(self.spec_entries() =~= before.remove(i as int));
                    assert forall|a: int, b: int| 0 <= a < b < self.spec_entries().len() implies
                        #[trigger] self.spec_entries()[a].0 != #[trigger] self.spec_entries()[b].0 by {
                        let a0 = if a < i { a } else { a + 1 };
                        let b0 = if b < i { b } else { b + 1 };
                        assert(before[a0].0 != before[b0].0);
                    }
                    if self.entry_spec(pay_id@) is Some {
                        let j = choose|j: int| self.cached_at_index(j, pay_id@);
                        let j0 = if j < i { j } else { j + 1 };
                        assert(before[j0].0 == pay_id@);
                        if j0 < i {
                            assert(before[j0].0 != before[i as int].0);
                        } else {
                            assert(before[i as int].0 != before[j0].0);
                        }
                    }
                    assert forall|k: Seq<char>| k != pay_id@ implies #[trigger] self.entry_spec(k) == old(self).entry_spec(k) by {
                        if old(self).entry_spec(k) is Some {
                            let j = choose|j: int| old(self).cached_at_index(j, k);
                            Self::lemma_entry_unique(*old(self), j, k);
                            assert(j != i);
                            let j1 = if j < i { j } else { j - 1 };
                            assert(self.spec_entries()[j1] == before[j]);
                            Self::lemma_entry_unique(*self, j1, k);
                        } else if self.entry_spec(k) is Some {
                            let j = choose|j: int| self.cached_at_index(j, k);
                            let j0 = if j < i { j } else { j + 1 };
                            assert(old(self).cached_at_index(j0, k));
                        }
                    }
                }
            },
        }
    }

    /// The number of cached entries (expired ones included).
    pub fn len(&self) -> (r: usize)
        ensures
            r == self.spec_entries().len(),
    {
        self.entries.len()
    }
}

impl Default for PayIdRegistry {
    fn default() -> (r: Self)
        ensures
            r.wf(),
            r.spec_entries().len() == 0,
    {
        Self::new()
    }
}

} // verus!
