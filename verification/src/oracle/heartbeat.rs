//! Feed heartbeats: each feed must be updated within its heartbeat
//! interval; the monitor raises a warning at 75% of it, a critical alert
//! past it, and marks the feed stale past it plus a grace period.

use vstd::prelude::*;
use crate::common::{decimal, u64_to_decimal};
use crate::oracle::feed::{FeedId, Price};

verus! {

/// Heartbeat of the ZUSD/USD feed (30 minutes).
pub const HEARTBEAT_ZUSD_USD: u64 = 1_800;
/// Standard heartbeat (1 hour).
pub const HEARTBEAT_STD: u64 = 3_600;
/// Heartbeat of less liquid feeds (2 hours).
pub const HEARTBEAT_MEDIUM: u64 = 7_200;
/// Heartbeat of low-volume feeds (4 hours).
pub const HEARTBEAT_LOW: u64 = 14_400;
/// Grace period past the heartbeat before a feed is stale (5 minutes).
pub const HEARTBEAT_GRACE_SECS: u64 = 300;

/// Severity of a heartbeat alert.
#[derive(Clone, Copy, Debug, PartialEq, Eq, Structural)]
pub enum HeartbeatAlertLevel {
    /// Three quarters of the heartbeat have passed.
    Warning,
    /// The heartbeat has passed, within the grace period.
    Critical,
    /// The heartbeat and the grace period have passed.
    Stale,
}

impl HeartbeatAlertLevel {
    /// The label of the level.
    pub open spec fn label_spec(self) -> Seq<char> {
        match self {
            HeartbeatAlertLevel::Warning => "WARN"@,
            HeartbeatAlertLevel::Critical => "CRIT"@,
            HeartbeatAlertLevel::Stale => "STALE"@,
        }
    }

    /// The short label of the level.
    pub fn label(&self) -> (r: &'static str)
        ensures
            r@ == self.label_spec(),
    {
        match self {
            HeartbeatAlertLevel::Warning => "WARN",
            HeartbeatAlertLevel::Critical => "CRIT",
            HeartbeatAlertLevel::Stale => "STALE",
        }
    }
}

/// An alert for one feed.
#[derive(Clone, Debug)]
pub struct HeartbeatAlert {
    pub feed_id: FeedId,
    pub level: HeartbeatAlertLevel,
    /// Last known good price.
    pub last_price: Option<Price>,
    pub last_update: u64,
    /// When the alert was raised.
    pub now: u64,
    /// Seconds since the last update.
    pub age_secs: u64,
    pub heartbeat_secs: u64,
}

/// `a - b`, or zero when `b > a`.
pub open spec fn sat_sub(a: u64, b: u64) -> int {
    if a >= b { a - b } else { 0 }
}

impl HeartbeatAlert {
    /// How far past the heartbeat the feed is (zero if not past it).
    pub fn overdue_secs(&self) -> (r: u64)
        ensures
            r == sat_sub(self.age_secs, self.heartbeat_secs),
    {
        self.age_secs.saturating_sub(self.heartbeat_secs)
    }

    /// `[LEVEL] FEED — AGEs since last update (heartbeat HBs, overdue ODs)`.
    pub open spec fn description_spec(&self) -> Seq<char> {
        "["@ + self.level.label_spec() + "] "@ + self.feed_id.0@ + " — "@ + decimal(self.age_secs as nat)
            + "s since last update (heartbeat "@ + decimal(self.heartbeat_secs as nat) + "s, overdue "@
            + decimal(sat_sub(self.age_secs, self.heartbeat_secs) as nat) + "s)"@
    }

    /// A one-line description of the alert.
    pub fn description(&self) -> (r: String)
        ensures
            r@ == self.description_spec(),
    {
        let mut s = String::from_str("[");
        s.append(self.level.label());
        s.append("] ");
        s.append(self.feed_id.0.as_str());
        s.append(" — ");
        s.append(u64_to_decimal(self.age_secs).as_str());
        s.append("s since last update (heartbeat ");
        s.append(u64_to_decimal(self.heartbeat_secs).as_str());
        s.append("s, overdue ");
        s.append(u64_to_decimal(self.overdue_secs()).as_str());
        s.append("s)");
        s
    }
}

/// The health record of one feed.
#[derive(Clone, Debug)]
pub struct FeedHealth {
    pub feed_id: FeedId,
    /// Maximum time between updates.
    pub heartbeat_secs: u64,
    pub last_price: Option<Price>,
    /// Time of the last accepted update (0: none yet).
    pub last_update: u64,
    pub updates_total: u64,
    pub misses_total: u64,
    pub is_stale: bool,
}

/// The age of `h`'s last update at `now`: `u64::MAX` before any update.
pub open spec fn age_spec(h: FeedHealth, now: u64) -> int {
    if h.last_update == 0 { u64::MAX as int } else { sat_sub(now, h.last_update) }
}

/// The alert level of `h` at `now`, if any.
pub open spec fn level_spec(h: FeedHealth, now: u64) -> Option<HeartbeatAlertLevel> {
    let age = age_spec(h, now);
    if h.last_update == 0 {
        None
    } else if age > h.heartbeat_secs + 300 {
        Some(HeartbeatAlertLevel::Stale)
    } else if age > h.heartbeat_secs {
        Some(HeartbeatAlertLevel::Critical)
    } else if age > (h.heartbeat_secs * 3) / 4 {
        Some(HeartbeatAlertLevel::Warning)
    } else {
        None
    }
}

/// `h` after a check at `now`: a stale feed is marked and its miss counted.
pub open spec fn checked_spec(h: FeedHealth, now: u64) -> FeedHealth {
    if level_spec(h, now) == Some(HeartbeatAlertLevel::Stale) {
        FeedHealth { is_stale: true, misses_total: (h.misses_total + 1) as u64, ..h }
    } else {
        h
    }
}

/// `a` is the alert a check of `h` at `now` raises.
pub open spec fn alert_of(a: HeartbeatAlert, h: FeedHealth, now: u64) -> bool {
    &&& level_spec(h, now) == Some(a.level)
    &&& a.feed_id == h.feed_id
    &&& a.last_price == h.last_price
    &&& a.last_update == h.last_update
    &&& a.now == now
    &&& a.age_secs == age_spec(h, now)
    &&& a.heartbeat_secs == h.heartbeat_secs
}

/// A check of `h` at `now` stays within machine range.
pub open spec fn check_computable(h: FeedHealth, now: u64) -> bool {
    h.last_update != 0 ==> {
        &&& h.heartbeat_secs + 300 <= u64::MAX
        &&& age_spec(h, now) > h.heartbeat_secs + 300 ==> h.misses_total < u64::MAX
        &&& age_spec(h, now) <= h.heartbeat_secs ==> h.heartbeat_secs * 3 <= u64::MAX
    }
}

impl FeedHealth {
    /// A feed with no update yet.
    pub fn new(feed_id: FeedId, heartbeat_secs: u64) -> (r: Self)
        ensures
            r == (FeedHealth {
                feed_id,
                heartbeat_secs,
                last_price: None,
                last_update: 0,
                updates_total: 0,
                misses_total: 0,
                is_stale: false,
            }),
    {
        FeedHealth {
            feed_id,
            heartbeat_secs,
            last_price: None,
            last_update: 0,
            updates_total: 0,
            misses_total: 0,
            is_stale: false,
        }
    }

    /// A copy of the record, equal to it.
    pub fn copied(&self) -> (r: Self)
        ensures
            r == *self,
    {
        FeedHealth {
            feed_id: FeedId(self.feed_id.0.clone()),
            heartbeat_secs: self.heartbeat_secs,
            last_price: self.last_price,
            last_update: self.last_update,
            updates_total: self.updates_total,
            misses_total: self.misses_total,
            is_stale: self.is_stale,
        }
    }

    /// Records an accepted update at `now`, which clears the stale mark.
    pub fn record_update(&mut self, price: Price, now: u64)
        requires
            old(self).updates_total < u64::MAX,
        ensures
            *final(self) == (FeedHealth {
                last_price: Some(price),
                last_update: now,
                updates_total: (old(self).updates_total + 1) as u64,
                is_stale: false,
                ..*old(self)
            }),
    {
        self.last_price = Some(price);
        self.last_update = now;
        self.updates_total = self.updates_total + 1;
        self.is_stale = false;
    }

    /// Seconds since the last update (`u64::MAX` before any).
    pub fn age_secs(&self, now: u64) -> (r: u64)
        ensures
            r == age_spec(*self, now),
    {
        if self.last_update == 0 {
            u64::MAX
        } else {
            now.saturating_sub(self.last_update)
        }
    }

    /// Checks the heartbeat at `now` and returns the alert it raises, if
    /// any.
    pub fn check(&mut self, now: u64) -> (r: Option<HeartbeatAlert>)
        requires
            check_computable(*old(self), now),
        ensures
            *final(self) == checked_spec(*old(self), now),
            match r {
                None => level_spec(*old(self), now) is None,
                Some(a) => alert_of(a, *old(self), now),
            },
    {
        let age = self.age_secs(now);
        if self.last_update == 0 {
            return None;
        }
        let level = if age > self.heartbeat_secs + 300 {
            self.is_stale = true;
            self.misses_total = self.misses_total + 1;
            HeartbeatAlertLevel::Stale
        } else if age > self.heartbeat_secs {
            HeartbeatAlertLevel::Critical
        } else if age > (self.heartbeat_secs * 3) / 4 {
            HeartbeatAlertLevel::Warning
        } else {
            return None;
        };
        Some(HeartbeatAlert {
            feed_id: FeedId(self.feed_id.0.clone()),
            level,
            last_price: self.last_price,
            last_update: self.last_update,
            now,
            age_secs: age,
            heartbeat_secs: self.heartbeat_secs,
        })
    }
}

/// The health records of all registered feeds, one per feed id.
pub struct HeartbeatMonitor {
    feeds: Vec<FeedHealth>,
}

impl HeartbeatMonitor {
    /// The records, in order of registration.
    pub closed spec fn spec_feeds(&self) -> Seq<FeedHealth> {
        self.feeds@
    }

    /// No feed id occurs twice.
    pub open spec fn wf(&self) -> bool {
        forall|i: int, j: int| 0 <= i < j < self.spec_feeds().len()
            ==> #[trigger] self.spec_feeds()[i].feed_id.0@ != #[trigger] self.spec_feeds()[j].feed_id.0@
    }

    /// The record of `feed`, if registered.
    pub open spec fn health_spec(&self, feed: Seq<char>) -> Option<FeedHealth> {
        if exists|i: int| 0 <= i < self.spec_feeds().len() && self.spec_feeds()[i].feed_id.0@ == feed {
            Some(self.spec_feeds()[choose|i: int| 0 <= i < self.spec_feeds().len() && self.spec_feeds()[i].feed_id.0@ == feed])
        } else {
            None
        }
    }

    /// An empty monitor.
    pub fn new() -> (r: Self)
        ensures
            r.wf(),
            r.spec_feeds().len() == 0,
    {
        HeartbeatMonitor { feeds: Vec::new() }
    }

    fn find(&self, feed_id: &FeedId) -> (r: Option<usize>)
        requires
            self.wf(),
        ensures
            match r {
                Some(i) => i < self.spec_feeds().len() && self.spec_feeds()[i as int].feed_id.0@ == feed_id.0@
                    && self.health_spec(feed_id.0@) == Some(self.spec_feeds()[i as int]),
                None => self.health_spec(feed_id.0@) is None,
            },
    {
        let mut i: usize = 0;
        while i < self.feeds.len()
            invariant
                self.wf(),
                0 <= i <= self.feeds@.len(),
                forall|k: int| 0 <= k < i ==> #[trigger] self.feeds@[k].feed_id.0@ != feed_id.0@,
            decreases self.feeds@.len() - i,
        {
            if self.feeds[i].feed_id == *feed_id {
                proof {
                    let k = choose|k: int| 0 <= k < self.spec_feeds().len() && self.spec_feeds()[k].feed_id.0@ == feed_id.0@;
                    if k != i as int {
                        if k < i as int {
                            assert(self.spec_feeds()[k].feed_id.0@ != self.spec_feeds()[i as int].feed_id.0@);
                        } else {
                            assert(self.spec_feeds()[i as int].feed_id.0@ != self.spec_feeds()[k].feed_id.0@);
                        }
                    }
                }
                return Some(i);
            }
            i += 1;
        }
        None
    }

    /// Registers `feed_id` with its heartbeat, replacing any earlier record
    /// of it.
    pub fn register(&mut self, feed_id: FeedId, heartbeat_secs: u64)
        requires
            old(self).wf(),
        ensures
            final(self).wf(),
            final(self).health_spec(feed_id.0@) == Some(FeedHealth {
                feed_id,
                heartbeat_secs,
                last_price: None,
                last_update: 0,
                updates_total: 0,
                misses_total: 0,
                is_stale: false,
            }),
            forall|f: Seq<char>| f != feed_id.0@ ==> #[trigger] final(self).health_spec(f) == old(self).health_spec(f),
            final(self).spec_feeds().len() == old(self).spec_feeds().len()
                + (if old(self).health_spec(feed_id.0@) is None { 1int } else { 0int }),
    {
        let ghost key = feed_id.0@;
        let h = FeedHealth::new(feed_id, heartbeat_secs);
        match self.find(&h.feed_id) {
            Some(i) => {
                self.feeds.set(i, h);
                proof {
                    assert forall|a: int, b: int| 0 <= a < b < self.spec_feeds().len() implies
                        #[trigger] self.spec_feeds()[a].feed_id.0@ != #[trigger] self.spec_feeds()[b].feed_id.0@ by {
                        assert(old(self).spec_feeds()[a].feed_id.0@ != old(self).spec_feeds()[b].feed_id.0@);
                    }
                    Self::lemma_health_after_set(*old(self), *self, i as int);
                }
            },
            None => {
                self.feeds.push(h);
                proof {
                    let n = old(self).spec_feeds().len() as int;
                    assert(self.spec_feeds().drop_last() =~= old(self).spec_feeds());
                    assert forall|a: int, b: int| 0 <= a < b < self.spec_feeds().len() implies
                        #[trigger] self.spec_feeds()[a].feed_id.0@ != #[trigger] self.spec_feeds()[b].feed_id.0@ by {
                        if b == n {
                            assert(old(self).spec_feeds()[a].feed_id.0@ != key);
                        } else {
                            assert(old(self).spec_feeds()[a].feed_id.0@ != old(self).spec_feeds()[b].feed_id.0@);
                        }
                    }
                    Self::lemma_health_after_push(*old(self), *self);
                }
            },
        }
    }

    proof fn lemma_health_unique(m: Self, i: int, f: Seq<char>)
        requires
            m.wf(),
            0 <= i < m.spec_feeds().len(),
            m.spec_feeds()[i].feed_id.0@ == f,
        ensures
            m.health_spec(f) == Some(m.spec_feeds()[i]),
    {
        let k = choose|k: int| 0 <= k < m.spec_feeds().len() && m.spec_feeds()[k].feed_id.0@ == f;
        if k != i {
            if k < i {
                assert(m.spec_feeds()[k].feed_id.0@ != m.spec_feeds()[i].feed_id.0@);
            } else {
                assert(m.spec_feeds()[i].feed_id.0@ != m.spec_feeds()[k].feed_id.0@);
            }
        }
    }

    proof fn lemma_health_after_set(m0: Self, m1: Self, i: int)
        requires
            m0.wf(),
            m1.wf(),
            0 <= i < m0.spec_feeds().len(),
            m1.spec_feeds() == m0.spec_feeds().update(i, m1.spec_feeds()[i]),
            m1.spec_feeds()[i].feed_id.0@ == m0.spec_feeds()[i].feed_id.0@,
        ensures
            m1.health_spec(m0.spec_feeds()[i].feed_id.0@) == Some(m1.spec_feeds()[i]),
            forall|f: Seq<char>| f != m0.spec_feeds()[i].feed_id.0@ ==> #[trigger] m1.health_spec(f) == m0.health_spec(f),
    {
        Self::lemma_health_unique(m1, i, m0.spec_feeds()[i].feed_id.0@);
        assert forall|f: Seq<char>| f != m0.spec_feeds()[i].feed_id.0@ implies #[trigger] m1.health_spec(f) == m0.health_spec(f) by {
            if m0.health_spec(f) is Some {
                let k = choose|k: int| 0 <= k < m0.spec_feeds().len() && m0.spec_feeds()[k].feed_id.0@ == f;
                Self::lemma_health_unique(m0, k, f);
                assert(m1.spec_feeds()[k] == m0.spec_feeds()[k]);
                Self::lemma_health_unique(m1, k, f);
            } else if m1.health_spec(f) is Some {
                let k = choose|k: int| 0 <= k < m1.spec_feeds().len() && m1.spec_feeds()[k].feed_id.0@ == f;
                assert(m0.spec_feeds()[k].feed_id.0@ == f);
            }
        }
    }

    proof fn lemma_health_after_push(m0: Self, m1: Self)
        requires
            m0.wf(),
            m1.wf(),
            m1.spec_feeds().len() == m0.spec_feeds().len() + 1,
            m1.spec_feeds().drop_last() == m0.spec_feeds(),
        ensures
            m1.health_spec(m1.spec_feeds().last().feed_id.0@) == Some(m1.spec_feeds().last()),
            forall|f: Seq<char>| f != m1.spec_feeds().last().feed_id.0@ ==> #[trigger] m1.health_spec(f) == m0.health_spec(f),
    {
        let n = m0.spec_feeds().len() as int;
        Self::lemma_health_unique(m1, n, m1.spec_feeds().last().feed_id.0@);
        assert forall|f: Seq<char>| f != m1.spec_feeds().last().feed_id.0@ implies #[trigger] m1.health_spec(f) == m0.health_spec(f) by {
            if m0.health_spec(f) is Some {
                let k = choose|k: int| 0 <= k < m0.spec_feeds().len() && m0.spec_feeds()[k].feed_id.0@ == f;
                Self::lemma_health_unique(m0, k, f);
                assert(m1.spec_feeds()[k] == m0.spec_feeds()[k]);
                Self::lemma_health_unique(m1, k, f);
            } else if m1.health_spec(f) is Some {
                let k = choose|k: int| 0 <= k < m1.spec_feeds().len() && m1.spec_feeds()[k].feed_id.0@ == f;
                if k < n {
                    assert(m0.spec_feeds()[k].feed_id.0@ == f);
                }
            }
        }
    }

    /// Registers the thirteen standard feeds with their heartbeats.
    pub fn register_all_feeds(&mut self)
        requires
            old(self).wf(),
        ensures
            final(self).wf(),
            forall|k: int| 0 <= k < 13 ==> {
                &&& #[trigger] final(self).health_spec(standard_feed_names()[k]) is Some
                &&& final(self).health_spec(standard_feed_names()[k]).unwrap().heartbeat_secs == standard_heartbeats()[k]
                &&& final(self).health_spec(standard_feed_names()[k]).unwrap().last_update == 0
            },
            forall|f: Seq<char>| !standard_feed_names().contains(f) ==> #[trigger] final(self).health_spec(f) == old(self).health_spec(f),
            old(self).spec_feeds().len() == 0 ==> final(self).spec_feeds().len() == 13,
    {
        let table = standard_feeds();
        proof {
            lemma_standard_names_distinct();
        }
        let mut i: usize = 0;
        while i < table.len()
            invariant
                self.wf(),
                table@.len() == 13,
                forall|k: int| 0 <= k < 13 ==> (#[trigger] table@[k]).0.0@ == standard_feed_names()[k]
                    && table@[k].1 == standard_heartbeats()[k],
                forall|a: int, b: int| 0 <= a < b < 13 ==> #[trigger] standard_feed_names()[a] != #[trigger] standard_feed_names()[b],
                0 <= i <= 13,
                forall|k: int| 0 <= k < i ==> {
                    &&& #[trigger] self.health_spec(standard_feed_names()[k]) is Some
                    &&& self.health_spec(standard_feed_names()[k]).unwrap().heartbeat_secs == standard_heartbeats()[k]
                    &&& self.health_spec(standard_feed_names()[k]).unwrap().last_update == 0
                },
                forall|f: Seq<char>| !standard_feed_names().subrange(0, i as int).contains(f)
                    ==> #[trigger] self.health_spec(f) == old(self).health_spec(f),
                old(self).spec_feeds().len() == 0 ==> self.spec_feeds().len() == i,
            decreases 13 - i,
        {
            let name = FeedId(table[i].0.0.clone());
            let hb = table[i].1;
            let ghost before = *self;
            let ghost key = name.0@;
            proof {
                if old(self).spec_feeds().len() == 0 {
                    assert(!standard_feed_names().subrange(0, i as int).contains(key)) by {
                        if standard_feed_names().subrange(0, i as int).contains(key) {
                            let j = choose|j: int| 0 <= j < i && #[trigger] standard_feed_names().subrange(0, i as int)[j] == key;
                            assert(standard_feed_names()[j] == standard_feed_names()[i as int]);
                        }
                    }
                    assert(old(self).health_spec(key) is None);
                }
            }
            self.register(name, hb);
            proof {
                assert forall|k: int| 0 <= k < i + 1 implies {
                    &&& #[trigger] self.health_spec(standard_feed_names()[k]) is Some
                    &&& self.health_spec(standard_feed_names()[k]).unwrap().heartbeat_secs == standard_heartbeats()[k]
                    &&& self.health_spec(standard_feed_names()[k]).unwrap().last_update == 0
                } by {
                    if k < i {
                        assert(standard_feed_names()[k] != standard_feed_names()[i as int]);
                        assert(self.health_spec(standard_feed_names()[k]) == before.health_spec(standard_feed_names()[k]));
                    }
                }
                assert forall|f: Seq<char>| !standard_feed_names().subrange(0, i + 1).contains(f)
                    implies #[trigger] self.health_spec(f) == old(self).health_spec(f) by {
                    assert(standard_feed_names().subrange(0, i + 1)[i as int] == key);
                    assert(f != key);
                    if standard_feed_names().subrange(0, i as int).contains(f) {
                        let j = choose|j: int| 0 <= j < i && #[trigger] standard_feed_names().subrange(0, i as int)[j] == f;
                        assert(standard_feed_names().subrange(0, i + 1)[j] == f);
                    }
                }
            }
            i += 1;
        }
        proof {
            assert(standard_feed_names().subrange(0, 13) =~= standard_feed_names());
        }
    }

    /// Records an update of `feed_id` (ignored for an unregistered feed).
    pub fn record_update(&mut self, feed_id: &FeedId, price: Price, now: u64)
        requires
            old(self).wf(),
            old(self).health_spec(feed_id.0@) is Some ==> old(self).health_spec(feed_id.0@).unwrap().updates_total < u64::MAX,
        ensures
            final(self).wf(),
            final(self).spec_feeds().len() == old(self).spec_feeds().len(),
            forall|f: Seq<char>| f != feed_id.0@ ==> #[trigger] final(self).health_spec(f) == old(self).health_spec(f),
            final(self).health_spec(feed_id.0@) == match old(self).health_spec(feed_id.0@) {
                None => None,
                Some(h) => Some(FeedHealth {
                    last_price: Some(price),
                    last_update: now,
                    updates_total: (h.updates_total + 1) as u64,
                    is_stale: false,
                    ..h
                }),
            },
    {
        match self.find(feed_id) {
            None => {},
            Some(i) => {
                let mut h = self.feeds[i].copied();
                h.record_update(price, now);
                self.feeds.set(i, h);
                proof {
                    assert forall|a: int, b: int| 0 <= a < b < self.spec_feeds().len() implies
                        #[trigger] self.spec_feeds()[a].feed_id.0@ != #[trigger] self.spec_feeds()[b].feed_id.0@ by {
                        assert(old(self).spec_feeds()[a].feed_id.0@ != old(self).spec_feeds()[b].feed_id.0@);
                    }
                    Self::lemma_health_after_set(*old(self), *self, i as int);
                }
            },
        }
    }

    /// Checks every feed at `now` (in registration order) and returns the
    /// alerts raised; stale feeds are marked and their misses counted.
    pub fn check_all(&mut self, now: u64) -> (r: Vec<HeartbeatAlert>)
        requires
            old(self).wf(),
            forall|k: int| 0 <= k < old(self).spec_feeds().len() ==> check_computable(#[trigger] old(self).spec_feeds()[k], now),
        ensures
            final(self).wf(),
            final(self).spec_feeds() == old(self).spec_feeds().map_values(|h: FeedHealth| checked_spec(h, now)),
            r@.len() == old(self).spec_feeds().filter(|h: FeedHealth| level_spec(h, now) is Some).len(),
            forall|k: int| 0 <= k < r@.len() ==> alert_of(#[trigger] r@[k],
                old(self).spec_feeds().filter(|h: FeedHealth| level_spec(h, now) is Some)[k], now),
    {
        let ghost pred = |h: FeedHealth| level_spec(h, now) is Some;
        let ghost f = |h: FeedHealth| checked_spec(h, now);
        let ghost orig = self.spec_feeds();
        let mut alerts: Vec<HeartbeatAlert> = Vec::new();
        let mut i: usize = 0;
        while i < self.feeds.len()
            invariant
                pred == (|h: FeedHealth| level_spec(h, now) is Some),
                f == (|h: FeedHealth| checked_spec(h, now)),
                orig == old(self).spec_feeds(),
                forall|k: int| 0 <= k < orig.len() ==> check_computable(#[trigger] orig[k], now),
                self.spec_feeds().len() == orig.len(),
                0 <= i <= orig.len(),
                forall|k: int| 0 <= k < i ==> #[trigger] self.spec_feeds()[k] == checked_spec(orig[k], now),
                forall|k: int| i <= k < orig.len() ==> #[trigger] self.spec_feeds()[k] == orig[k],
                alerts@.len() == orig.subrange(0, i as int).filter(pred).len(),
                forall|k: int| 0 <= k < alerts@.len() ==> alert_of(#[trigger] alerts@[k], orig.subrange(0, i as int).filter(pred)[k], now),
            decreases orig.len() - i,
        {
            let mut h = self.feeds[i].copied();
            let a = h.check(now);
            self.feeds.set(i, h);
            proof {
                let s = orig.subrange(0, i + 1);
                reveal_with_fuel(Seq::<FeedHealth>::filter, 2);
                assert(s.drop_last() =~= orig.subrange(0, i as int));
                assert(s.last() == orig[i as int]);
            }
            match a {
                Some(al) => alerts.push(al),
                None => {},
            }
            i += 1;
        }
        proof {
            assert(orig.subrange(0, i as int) =~= orig);
            assert(self.spec_feeds() =~= orig.map_values(f));
            assert forall|a: int, b: int| 0 <= a < b < self.spec_feeds().len() implies
                #[trigger] self.spec_feeds()[a].feed_id.0@ != #[trigger] self.spec_feeds()[b].feed_id.0@ by {
                assert(orig[a].feed_id.0@ != orig[b].feed_id.0@);
            }
        }
        alerts
    }

    /// The ids of the feeds marked stale, in registration order.
    pub fn stale_feeds(&self) -> (r: Vec<&FeedId>)
        ensures
            r@.len() == self.spec_feeds().filter(|h: FeedHealth| h.is_stale).len(),
            forall|k: int| 0 <= k < r@.len() ==> *#[trigger] r@[k] == self.spec_feeds().filter(|h: FeedHealth| h.is_stale)[k].feed_id,
    {
        let ghost pred = |h: FeedHealth| h.is_stale;
        let mut r: Vec<&FeedId> = Vec::new();
        let mut i: usize = 0;
        while i < self.feeds.len()
            invariant
                pred == (|h: FeedHealth| h.is_stale),
                0 <= i <= self.feeds@.len(),
                r@.len() == self.feeds@.subrange(0, i as int).filter(pred).len(),
                forall|k: int| 0 <= k < r@.len() ==> *#[trigger] r@[k] == self.feeds@.subrange(0, i as int).filter(pred)[k].feed_id,
            decreases self.feeds@.len() - i,
        {
            proof {
                let s = self.feeds@.subrange(0, i + 1);
                reveal_with_fuel(Seq::<FeedHealth>::filter, 2);
                assert(s.drop_last() =~= self.feeds@.subrange(0, i as int));
                assert(s.last() == self.feeds@[i as int]);
            }
            if self.feeds[i].is_stale {
                r.push(&self.feeds[i].feed_id);
            }
            i += 1;
        }
        proof {
            assert(self.feeds@.subrange(0, i as int) =~= self.feeds@);
        }
        r
    }

    /// The health record of `feed_id`.
    pub fn health(&self, feed_id: &FeedId) -> (r: Option<&FeedHealth>)
        requires
            self.wf(),
        ensures
            match r {
                Some(h) => self.health_spec(feed_id.0@) == Some(*h),
                None => self.health_spec(feed_id.0@) is None,
            },
    {
        match self.find(feed_id) {
            Some(i) => Some(&self.feeds[i]),
            None => None,
        }
    }

    /// The number of registered feeds.
    pub fn feed_count(&self) -> (r: usize)
        ensures
            r == self.spec_feeds().len(),
    {
        self.feeds.len()
    }
}

impl Default for HeartbeatMonitor {
    fn default() -> (r: Self)
        ensures
            r.wf(),
            r.spec_feeds().len() == 0,
    {
        Self::new()
    }
}

/// The heartbeats of the standard feeds, in the order of their names.
pub open spec fn standard_heartbeats() -> Seq<u64> {
    seq![HEARTBEAT_ZUSD_USD, HEARTBEAT_STD, HEARTBEAT_STD, HEARTBEAT_STD, HEARTBEAT_STD, HEARTBEAT_STD, HEARTBEAT_STD,
        HEARTBEAT_MEDIUM, HEARTBEAT_MEDIUM, HEARTBEAT_MEDIUM, HEARTBEAT_MEDIUM, HEARTBEAT_MEDIUM, HEARTBEAT_LOW]
}

proof fn lemma_standard_names_distinct()
    ensures
        forall|a: int, b: int| 0 <= a < b < 13 ==> #[trigger] standard_feed_names()[a] != #[trigger] standard_feed_names()[b],
{
    reveal_strlit("ZUSD/USD");
    reveal_strlit("ZBX/USD");
    reveal_strlit("ETH/USD");
    reveal_strlit("BTC/USD");
    reveal_strlit("USD/INR");
    reveal_strlit("SOL/USD");
    reveal_strlit("AVAX/USD");
    reveal_strlit("MATIC/USD");
    reveal_strlit("ARB/USD");
    reveal_strlit("OP/USD");
    reveal_strlit("LINK/USD");
    reveal_strlit("DOT/USD");
    reveal_strlit("ZNS/USD");
    let n = standard_feed_names();
    assert forall|a: int, b: int| 0 <= a < b < 13 implies #[trigger] n[a] != #[trigger] n[b] by {
        if n[a] == n[b] {
            assert(n[a].len() == n[b].len());
            assert(n[a][0] == n[b][0]);
            assert(n[a][1] == n[b][1]);
        }
    }
}

/// The standard feeds with their heartbeats.
fn standard_feeds() -> (r: Vec<(FeedId, u64)>)
    ensures
        r@.len() == 13,
        forall|k: int| 0 <= k < 13 ==> (#[trigger] r@[k]).0.0@ == standard_feed_names()[k] && r@[k].1 == standard_heartbeats()[k],
{
    let r = vec![
        (FeedId::zusd_usd(), HEARTBEAT_ZUSD_USD),
        (FeedId::zbx_usd(), HEARTBEAT_STD),
        (FeedId::eth_usd(), HEARTBEAT_STD),
        (FeedId::btc_usd(), HEARTBEAT_STD),
        (FeedId::usd_inr(), HEARTBEAT_STD),
        (FeedId::sol_usd(), HEARTBEAT_STD),
        (FeedId::avax_usd(), HEARTBEAT_STD),
        (FeedId::matic_usd(), HEARTBEAT_MEDIUM),
        (FeedId::arb_usd(), HEARTBEAT_MEDIUM),
        (FeedId::op_usd(), HEARTBEAT_MEDIUM),
        (FeedId::link_usd(), HEARTBEAT_MEDIUM),
        (FeedId::dot_usd(), HEARTBEAT_MEDIUM),
        (FeedId::zns_usd(), HEARTBEAT_LOW),
    ];
    r
}

/// The thirteen standard feed names.
pub open spec fn standard_feed_names() -> Seq<Seq<char>> {
    seq!["ZUSD/USD"@, "ZBX/USD"@, "ETH/USD"@, "BTC/USD"@, "USD/INR"@, "SOL/USD"@, "AVAX/USD"@,
        "MATIC/USD"@, "ARB/USD"@, "OP/USD"@, "LINK/USD"@, "DOT/USD"@, "ZNS/USD"@]
}

} // verus!
