//! Reporter slashing: a report further than a fifth of the median from
//! the round's median is an outlier; the second outlier in a row on a feed
//! slashes 5% of stake, the third 10% (and starts the streak again), a
//! third slash suspends the reporter, and coordinated manipulation slashes
//! 30% and suspends at once. Slashes can be appealed for 1440 blocks.

use vstd::prelude::*;
use crate::common::{mul_div_sat_u32, sat_u32};
use crate::oracle::feed::{FeedId, Price};
use crate::table::Table;
use crate::text::str_eq;

verus! {

/// Consecutive outlier rounds before a major slash.
pub const SLASH_THRESHOLD: u32 = 3;
/// Blocks during which a slash can be appealed (about two hours).
pub const APPEAL_WINDOW_BLOCKS: u64 = 1_440;
/// Minor slash (5% of stake).
pub const SLASH_BPS_MINOR: u32 = 500;
/// Major slash (10% of stake).
pub const SLASH_BPS_MAJOR: u32 = 1_000;
/// Critical slash for coordinated manipulation (30% of stake).
pub const SLASH_BPS_CRITICAL: u32 = 3_000;

/// How severe a slash is.
#[derive(Clone, Copy, Debug, PartialEq, Eq, Structural)]
pub enum SlashSeverity {
    /// A warning; no stake taken.
    Warning,
    Minor,
    Major,
    Critical,
}

impl SlashSeverity {
    /// The stake taken, in basis points.
    pub open spec fn bps_spec(self) -> u32 {
        match self {
            SlashSeverity::Warning => 0,
            SlashSeverity::Minor => SLASH_BPS_MINOR,
            SlashSeverity::Major => SLASH_BPS_MAJOR,
            SlashSeverity::Critical => SLASH_BPS_CRITICAL,
        }
    }

    /// The stake taken, in basis points.
    pub fn slash_bps(&self) -> (r: u32)
        ensures
            r == self.bps_spec(),
    {
        match self {
            SlashSeverity::Warning => 0,
            SlashSeverity::Minor => SLASH_BPS_MINOR,
            SlashSeverity::Major => SLASH_BPS_MAJOR,
            SlashSeverity::Critical => SLASH_BPS_CRITICAL,
        }
    }

    /// A lower-case name of the level.
    pub fn label(&self) -> (r: &'static str)
        ensures
            r@ == match self {
                SlashSeverity::Warning => "warning"@,
                SlashSeverity::Minor => "minor"@,
                SlashSeverity::Major => "major"@,
                SlashSeverity::Critical => "critical"@,
            },
    {
        match self {
            SlashSeverity::Warning => "warning",
            SlashSeverity::Minor => "minor",
            SlashSeverity::Major => "major",
            SlashSeverity::Critical => "critical",
        }
    }
}


/// `|a - b|`.
pub open spec fn dist(a: i128, b: i128) -> int {
    if a >= b { a - b } else { b - a }
}

/// A report `r` is an outlier against a positive median `m` when it lies
/// more than `m / 5` away (its deviation, as a multiple of the median
/// times five, exceeds one).
pub open spec fn is_outlier(r: i128, m: i128) -> bool {
    m > 0 && dist(r, m) * 5 > m
}

/// The deviation of `r` from `m` as a multiple of `m` times five, in basis
/// points (rounded down, saturated to `u32`); zero unless `m > 0`.
pub open spec fn deviation_bps_spec(r: i128, m: i128) -> u32 {
    if m > 0 { sat_u32(dist(r, m) * 50_000 / (m as int)) } else { 0 }
}

/// `|a - b|` as a `u128` (it always fits).
fn dist_u128(a: i128, b: i128) -> (r: u128)
    ensures
        r == dist(a, b),
{
    if a >= b {
        if b >= 0 || a < 0 {
            (a - b) as u128
        } else {
            (a as u128) + ((-(b + 1)) as u128) + 1
        }
    } else {
        if a >= 0 || b < 0 {
            (b - a) as u128
        } else {
            (b as u128) + ((-(a + 1)) as u128) + 1
        }
    }
}

/// Whether `r` is an outlier against `m`.
pub fn is_outlier_check(r: i128, m: i128) -> (b: bool)
    ensures
        b == is_outlier(r, m),
{
    if m <= 0 {
        return false;
    }
    let d = dist_u128(r, m);
    let q = (m as u128) / 5;
    proof {
        assert(d * 5 > m <==> d > q) by (nonlinear_arith)
            requires q == m / 5, m > 0, d >= 0;
    }
    d > q
}

/// The deviation of `r` from `m` in basis points of the median times five.
pub fn deviation_bps(r: i128, m: i128) -> (b: u32)
    ensures
        b == deviation_bps_spec(r, m),
{
    if m <= 0 {
        return 0;
    }
    mul_div_sat_u32(dist_u128(r, m), 50_000, m as u128)
}

/// A slash of one reporter, to be included in a block.
#[derive(Clone, Debug)]
pub struct OracleSlashEvent {
    pub reporter: [u8; 20],
    /// The feed that was misreported.
    pub feed_id: FeedId,
    pub round_id: u64,
    pub severity: SlashSeverity,
    /// The stake taken, in basis points.
    pub slash_bps: u32,
    /// The reporter's price.
    pub reported_price: Price,
    /// The round's median.
    pub median_price: Price,
    /// The deviation as a multiple of the median times five, in basis points.
    pub deviation_bps: u32,
    pub detected_block: u64,
    /// The last block in which the slash can be appealed.
    pub appeal_until: u64,
    pub appealed: bool,
    pub appeal_success: Option<bool>,
}

/// `e` is a fresh, unappealed event with these fields.
pub open spec fn event_is(e: OracleSlashEvent, reporter: [u8; 20], feed: Seq<char>, round_id: u64,
    severity: SlashSeverity, reported: i128, median: i128, deviation: u32, block: u64) -> bool {
    &&& e.reporter == reporter
    &&& e.feed_id.0@ == feed
    &&& e.round_id == round_id
    &&& e.severity == severity
    &&& e.slash_bps == severity.bps_spec()
    &&& e.reported_price.0 == reported
    &&& e.median_price.0 == median
    &&& e.deviation_bps == deviation
    &&& e.detected_block == block
    &&& e.appeal_until == block + APPEAL_WINDOW_BLOCKS
    &&& !e.appealed
    &&& e.appeal_success is None
}

impl OracleSlashEvent {
    /// An unappealed event whose appeal window ends `APPEAL_WINDOW_BLOCKS`
    /// after detection.
    pub fn new(reporter: [u8; 20], feed_id: FeedId, round_id: u64, severity: SlashSeverity, reported_price: Price,
        median_price: Price, deviation_bps: u32, detected_block: u64) -> (r: Self)
        requires
            detected_block + APPEAL_WINDOW_BLOCKS <= u64::MAX,
        ensures
            event_is(r, reporter, feed_id.0@, round_id, severity, reported_price.0, median_price.0, deviation_bps,
                detected_block),
    {
        let slash_bps = severity.slash_bps();
        OracleSlashEvent {
            reporter,
            feed_id,
            round_id,
            severity,
            slash_bps,
            reported_price,
            median_price,
            deviation_bps,
            detected_block,
            appeal_until: detected_block + APPEAL_WINDOW_BLOCKS,
            appealed: false,
            appeal_success: None,
        }
    }

    /// Whether the slash can still be appealed at `current_block`.
    pub fn is_appealable(&self, current_block: u64) -> (r: bool)
        ensures
            r == (!self.appealed && current_block <= self.appeal_until),
    {
        !self.appealed && current_block <= self.appeal_until
    }

    /// A copy of the event.
    pub fn copied(&self) -> (r: Self)
        ensures
            r.feed_id.0@ == self.feed_id.0@,
            r.reporter == self.reporter && r.round_id == self.round_id && r.severity == self.severity,
            r.slash_bps == self.slash_bps && r.reported_price == self.reported_price,
            r.median_price == self.median_price && r.deviation_bps == self.deviation_bps,
            r.detected_block == self.detected_block && r.appeal_until == self.appeal_until,
            r.appealed == self.appealed && r.appeal_success == self.appeal_success,
    {
        OracleSlashEvent {
            reporter: self.reporter,
            feed_id: FeedId(self.feed_id.to_string()),
            round_id: self.round_id,
            severity: self.severity,
            slash_bps: self.slash_bps,
            reported_price: self.reported_price,
            median_price: self.median_price,
            deviation_bps: self.deviation_bps,
            detected_block: self.detected_block,
            appeal_until: self.appeal_until,
            appealed: self.appealed,
            appeal_success: self.appeal_success,
        }
    }
}

/// The slashing record of one reporter.
#[derive(Debug)]
pub struct ReporterSlashState {
    pub address: [u8; 20],
    /// Outlier reports in a row, over all feeds.
    pub consecutive_outliers: u32,
    /// Slashes received so far.
    pub total_slashes: u32,
    /// Stake taken so far, in basis points.
    pub total_slash_bps: u32,
    /// Feed → outlier rounds in a row on it (the first entry of a feed counts).
    pub miss_streak: Vec<(FeedId, u32)>,
    /// Earlier slash events of the reporter.
    pub slash_history: Vec<OracleSlashEvent>,
    pub suspended: bool,
}

/// Entry `i` of `s` is the first one of `feed`.
pub open spec fn first_streak(s: Seq<(FeedId, u32)>, i: int, feed: Seq<char>) -> bool {
    &&& 0 <= i < s.len()
    &&& s[i].0.0@ == feed
    &&& forall|j: int| 0 <= j < i ==> (#[trigger] s[j]).0.0@ != feed
}

/// The streak of `feed` in `s` (zero when it has none).
pub open spec fn streak_in(s: Seq<(FeedId, u32)>, feed: Seq<char>) -> u32 {
    if exists|i: int| first_streak(s, i, feed) {
        s[choose|i: int| first_streak(s, i, feed)].1
    } else {
        0
    }
}

/// The first entry of a feed is unique.
proof fn lemma_first_streak(s: Seq<(FeedId, u32)>, i: int, feed: Seq<char>)
    requires
        first_streak(s, i, feed),
    ensures
        streak_in(s, feed) == s[i].1,
{
    let k = choose|k: int| first_streak(s, k, feed);
    if k < i {
        assert(s[k].0.0@ != feed);
    } else if k > i {
        assert(s[i].0.0@ != feed);
    }
}

impl ReporterSlashState {
    /// A reporter with a clean record.
    pub fn new(address: [u8; 20]) -> (r: Self)
        ensures
            r.address == address,
            r.consecutive_outliers == 0 && r.total_slashes == 0 && r.total_slash_bps == 0,
            r.miss_streak@.len() == 0 && r.slash_history@.len() == 0,
            !r.suspended,
    {
        ReporterSlashState {
            address,
            consecutive_outliers: 0,
            total_slashes: 0,
            total_slash_bps: 0,
            miss_streak: Vec::new(),
            slash_history: Vec::new(),
            suspended: false,
        }
    }

    /// Whether the reporter is suspended.
    pub fn is_suspended(&self) -> (r: bool)
        ensures
            r == self.suspended,
    {
        self.suspended
    }

    /// The streak of `feed`.
    pub open spec fn streak_of(&self, feed: Seq<char>) -> u32 {
        streak_in(self.miss_streak@, feed)
    }

    /// The streak of `feed`.
    pub fn streak(&self, feed: &FeedId) -> (r: u32)
        ensures
            r == self.streak_of(feed.0@),
    {
        match self.streak_index(feed) {
            Some(i) => {
                proof {
                    lemma_first_streak(self.miss_streak@, i as int, feed.0@);
                }
                self.miss_streak[i].1
            },
            None => 0,
        }
    }

    fn streak_index(&self, feed: &FeedId) -> (r: Option<usize>)
        ensures
            match r {
                Some(i) => first_streak(self.miss_streak@, i as int, feed.0@),
                None => !exists|i: int| first_streak(self.miss_streak@, i, feed.0@),
            },
    {
        let mut i: usize = 0;
        while i < self.miss_streak.len()
            invariant
                0 <= i <= self.miss_streak@.len(),
                forall|j: int| 0 <= j < i ==> (#[trigger] self.miss_streak@[j]).0.0@ != feed.0@,
            decreases self.miss_streak@.len() - i,
        {
            if str_eq(self.miss_streak[i].0.0.as_str(), feed.0.as_str()) {
                return Some(i);
            }
            i += 1;
        }
        proof {
            if exists|k: int| first_streak(self.miss_streak@, k, feed.0@) {
                let k = choose|k: int| first_streak(self.miss_streak@, k, feed.0@);
                assert(self.miss_streak@[k].0.0@ == feed.0@);
            }
        }
        None
    }

    /// Sets the streak of `feed` to `v`, leaving every other field and
    /// every other feed's streak as they were.
    fn set_streak(&mut self, feed: &FeedId, v: u32)
        ensures
            final(self).streak_of(feed.0@) == v,
            forall|f: Seq<char>| f != feed.0@ ==> #[trigger] final(self).streak_of(f) == old(self).streak_of(f),
            final(self).address == old(self).address,
            final(self).consecutive_outliers == old(self).consecutive_outliers,
            final(self).total_slashes == old(self).total_slashes,
            final(self).total_slash_bps == old(self).total_slash_bps,
            final(self).slash_history@ == old(self).slash_history@,
            final(self).suspended == old(self).suspended,
    {
        let ghost s0 = self.miss_streak@;
        match self.streak_index(feed) {
            Some(i) => {
                let key = FeedId(self.miss_streak[i].0.to_string());
                self.miss_streak.set(i, (key, v));
                proof {
                    let s1 = self.miss_streak@;
                    assert(first_streak(s1, i as int, feed.0@));
                    lemma_first_streak(s1, i as int, feed.0@);
                    assert forall|f: Seq<char>| f != feed.0@ implies #[trigger] streak_in(s1, f) == streak_in(s0, f) by {
                        if exists|k: int| first_streak(s0, k, f) {
                            let k = choose|k: int| first_streak(s0, k, f);
                            assert(s1[k] == s0[k]);
                            assert(first_streak(s1, k, f));
                            lemma_first_streak(s0, k, f);
                            lemma_first_streak(s1, k, f);
                        } else if exists|k: int| first_streak(s1, k, f) {
                            let k = choose|k: int| first_streak(s1, k, f);
                            assert(s0[k].0.0@ == f);
                            assert forall|j: int| 0 <= j < k implies (#[trigger] s0[j]).0.0@ != f by {
                                assert(s1[j].0.0@ == s0[j].0.0@);
                            }
                            assert(first_streak(s0, k, f));
                        }
                    }
                }
            },
            None => {
                let key = FeedId(feed.to_string());
                self.miss_streak.push((key, v));
                proof {
                    let s1 = self.miss_streak@;
                    let n = s0.len() as int;
                    assert forall|j: int| 0 <= j < n implies (#[trigger] s1[j]).0.0@ != feed.0@ by {
                        assert(s1[j] == s0[j]);
                        if s0[j].0.0@ == feed.0@ {
                            assert(exists|k: int| first_streak(s0, k, feed.0@)) by {
                                lemma_some_first(s0, j, feed.0@);
                            }
                        }
                    }
                    assert(first_streak(s1, n, feed.0@));
                    lemma_first_streak(s1, n, feed.0@);
                    assert forall|f: Seq<char>| f != feed.0@ implies #[trigger] streak_in(s1, f) == streak_in(s0, f) by {
                        if exists|k: int| first_streak(s0, k, f) {
                            let k = choose|k: int| first_streak(s0, k, f);
                            assert(s1[k] == s0[k]);
                            assert(first_streak(s1, k, f));
                            lemma_first_streak(s0, k, f);
                            lemma_first_streak(s1, k, f);
                        } else if exists|k: int| first_streak(s1, k, f) {
                            let k = choose|k: int| first_streak(s1, k, f);
                            if k < n {
                                assert(s0[k].0.0@ == f);
                                assert forall|j: int| 0 <= j < k implies (#[trigger] s0[j]).0.0@ != f by {
                                    assert(s1[j] == s0[j]);
                                }
                                assert(first_streak(s0, k, f));
                            }
                        }
                    }
                }
            },
        }
    }
}

/// An entry of `feed` at index `j` means some entry of it is the first.
proof fn lemma_some_first(s: Seq<(FeedId, u32)>, j: int, feed: Seq<char>)
    requires
        0 <= j < s.len(),
        s[j].0.0@ == feed,
    ensures
        exists|k: int| first_streak(s, k, feed),
    decreases j,
{
    if forall|i: int| 0 <= i < j ==> (#[trigger] s[i]).0.0@ != feed {
        assert(first_streak(s, j, feed));
    } else {
        let i = choose|i: int| 0 <= i < j && (#[trigger] s[i]).0.0@ == feed;
        lemma_some_first(s, i, feed);
    }
}

/// The penalty engine: each reporter's record and the slash events not
/// yet taken for a block.
#[derive(Debug)]
pub struct OracleSlasher {
    reporter_states: Table<[u8; 20], ReporterSlashState>,
    pending_events: Vec<OracleSlashEvent>,
}

/// Whether `post`'s record of every reporter but `reporter` is `pre`'s.
pub open spec fn others_unchanged(pre: OracleSlasher, post: OracleSlasher, reporter: [u8; 20]) -> bool {
    forall|a: [u8; 20]| a != reporter ==> {
        &&& (#[trigger] post.states().dom().contains(a)) == pre.states().dom().contains(a)
        &&& pre.states().dom().contains(a) ==> post.states()[a] == pre.states()[a]
    }
}

/// `post`'s pending events are `pre`'s with one more at the end.
pub open spec fn one_more_event(pre: OracleSlasher, post: OracleSlasher) -> bool {
    &&& post.pending().len() == pre.pending().len() + 1
    &&& post.pending().subrange(0, pre.pending().len() as int) == pre.pending()
}

/// The outcome of `record_deviation` on `pre`, leaving `post` and answering
/// `r`: an outlier adds one to the reporter's streak on the feed (and to its
/// outliers in a row), creating its record if needed; the first outlier is a
/// warning, the second a minor slash, the third or later a major slash that
/// starts the streak again and suspends the reporter at its third slash;
/// every slash is appended to the pending events. A good report resets the
/// streak on the feed and the outliers in a row of a known reporter.
pub open spec fn record_deviation_post(pre: OracleSlasher, post: OracleSlasher, reporter: [u8; 20], feed: Seq<char>,
    reported: i128, median: i128, round_id: u64, block: u64, r: Option<OracleSlashEvent>) -> bool {
    let known = pre.states().dom().contains(reporter);
    let st0 = pre.states()[reporter];
    let st1 = post.states()[reporter];
    let streak0: int = if known { st0.streak_of(feed) as int } else { 0 };
    let outliers0: int = if known { st0.consecutive_outliers as int } else { 0 };
    let slashes0: int = if known { st0.total_slashes as int } else { 0 };
    let bps0: int = if known { st0.total_slash_bps as int } else { 0 };
    let suspended0 = known && st0.suspended;
    &&& post.wf()
    &&& others_unchanged(pre, post, reporter)
    &&& if is_outlier(reported, median) {
        let k = streak0 + 1;
        &&& post.states().dom().contains(reporter)
        &&& st1.address == (if known { st0.address } else { reporter })
        &&& st1.slash_history@ == (if known { st0.slash_history@ } else { Seq::empty() })
        &&& st1.consecutive_outliers == outliers0 + 1
        &&& forall|f: Seq<char>| f != feed ==> #[trigger] st1.streak_of(f) == (if known { st0.streak_of(f) } else { 0u32 })
        &&& if k == 1 {
            &&& r is None
            &&& st1.streak_of(feed) == 1
            &&& st1.total_slashes == slashes0
            &&& st1.total_slash_bps == bps0
            &&& st1.suspended == suspended0
            &&& post.pending() == pre.pending()
        } else {
            let sev = if k >= SLASH_THRESHOLD { SlashSeverity::Major } else { SlashSeverity::Minor };
            &&& r matches Some(e) && event_is(e, reporter, feed, round_id, sev, reported, median,
                deviation_bps_spec(reported, median), block)
            &&& st1.streak_of(feed) == (if k >= SLASH_THRESHOLD { 0 } else { k })
            &&& st1.total_slashes == slashes0 + 1
            &&& st1.total_slash_bps == bps0 + sev.bps_spec()
            &&& st1.suspended == (if k >= SLASH_THRESHOLD { suspended0 || slashes0 + 1 >= 3 } else { suspended0 })
            &&& one_more_event(pre, post)
            &&& event_is(post.pending().last(), reporter, feed, round_id, sev, reported, median,
                deviation_bps_spec(reported, median), block)
        }
    } else {
        &&& r is None
        &&& post.pending() == pre.pending()
        &&& post.states().dom() == pre.states().dom()
        &&& known ==> {
            &&& st1.streak_of(feed) == 0
            &&& st1.consecutive_outliers == 0
            &&& forall|f: Seq<char>| f != feed ==> #[trigger] st1.streak_of(f) == st0.streak_of(f)
            &&& st1.address == st0.address
            &&& st1.slash_history@ == st0.slash_history@
            &&& st1.total_slashes == st0.total_slashes
            &&& st1.total_slash_bps == st0.total_slash_bps
            &&& st1.suspended == st0.suspended
        }
    }
}

/// How often `a` occurs among the first `k` of `s`.
pub open spec fn occ(s: Seq<[u8; 20]>, k: int, a: [u8; 20]) -> int
    decreases k,
{
    if k <= 0 { 0 } else { occ(s, k - 1, a) + (if s[k - 1] == a { 1int } else { 0int }) }
}

proof fn lemma_occ_le(s: Seq<[u8; 20]>, i: int, k: int, a: [u8; 20])
    requires
        0 <= i <= k,
    ensures
        occ(s, i, a) <= occ(s, k, a),
    decreases k - i,
{
    if i < k {
        lemma_occ_le(s, i, k - 1, a);
    }
}

/// The slashes of `a` in `m` (zero without a record).
pub open spec fn slashes_of(m: OracleSlasher, a: [u8; 20]) -> int {
    if m.states().dom().contains(a) { m.states()[a].total_slashes as int } else { 0 }
}

/// The stake taken from `a` in `m`, in basis points (zero without a record).
pub open spec fn bps_of(m: OracleSlasher, a: [u8; 20]) -> int {
    if m.states().dom().contains(a) { m.states()[a].total_slash_bps as int } else { 0 }
}

/// `post`'s record of `a` is `pre`'s (or a clean one) with `n` critical
/// slashes more, and suspended.
pub open spec fn slashed_record(pre: OracleSlasher, post: OracleSlasher, a: [u8; 20], n: int) -> bool {
    let known = pre.states().dom().contains(a);
    let st0 = pre.states()[a];
    let st1 = post.states()[a];
    &&& post.states().dom().contains(a)
    &&& st1.total_slashes == slashes_of(pre, a) + n
    &&& st1.total_slash_bps == bps_of(pre, a) + SLASH_BPS_CRITICAL * n
    &&& st1.suspended
    &&& st1.address == (if known { st0.address } else { a })
    &&& st1.consecutive_outliers == (if known { st0.consecutive_outliers } else { 0 })
    &&& st1.slash_history@ == (if known { st0.slash_history@ } else { Seq::empty() })
    &&& forall|f: Seq<char>| #[trigger] st1.streak_of(f) == (if known { st0.streak_of(f) } else { 0u32 })
}

/// The outcome of slashing the first `k` reporters of `reporters` for a
/// coordinated attack, with the events `out`.
pub open spec fn coordinated_post(pre: OracleSlasher, post: OracleSlasher, reporters: Seq<[u8; 20]>, feed: Seq<char>,
    bad: i128, median: i128, round_id: u64, block: u64, k: int, out: Seq<OracleSlashEvent>) -> bool {
    let dev = deviation_bps_spec(bad, median);
    &&& post.wf()
    &&& out.len() == k
    &&& forall|j: int| 0 <= j < k ==> event_is(#[trigger] out[j], reporters[j], feed, round_id, SlashSeverity::Critical,
        bad, median, dev, block)
    &&& post.pending().len() == pre.pending().len() + k
    &&& post.pending().subrange(0, pre.pending().len() as int) == pre.pending()
    &&& forall|j: int| 0 <= j < k ==> event_is(#[trigger] post.pending()[pre.pending().len() + j], reporters[j], feed,
        round_id, SlashSeverity::Critical, bad, median, dev, block)
    &&& forall|a: [u8; 20]| #[trigger] post.states().dom().contains(a) == (pre.states().dom().contains(a) || occ(reporters, k, a) > 0)
    &&& forall|a: [u8; 20]| occ(reporters, k, a) > 0 ==> #[trigger] slashed_record(pre, post, a, occ(reporters, k, a))
    &&& forall|a: [u8; 20]| occ(reporters, k, a) == 0 && pre.states().dom().contains(a) ==> #[trigger] post.states()[a] == pre.states()[a]
}

/// The counters of a record touched by an outlier report stay in range.
pub open spec fn deviation_fits(pre: OracleSlasher, reporter: [u8; 20], feed: Seq<char>, block: u64) -> bool {
    let known = pre.states().dom().contains(reporter);
    let st0 = pre.states()[reporter];
    &&& known ==> {
        &&& st0.consecutive_outliers < u32::MAX
        &&& st0.streak_of(feed) < u32::MAX
        &&& st0.total_slashes < u32::MAX
        &&& st0.total_slash_bps + SLASH_BPS_MAJOR <= u32::MAX
    }
    &&& (known && st0.streak_of(feed) >= 1) ==> block + APPEAL_WINDOW_BLOCKS <= u64::MAX
}

impl OracleSlasher {
    /// Reporter → record.
    pub closed spec fn states(&self) -> Map<[u8; 20], ReporterSlashState> {
        self.reporter_states.view()
    }

    /// The slash events not yet taken, oldest first.
    pub closed spec fn pending(&self) -> Seq<OracleSlashEvent> {
        self.pending_events@
    }

    /// The record table is well formed.
    pub closed spec fn wf(&self) -> bool {
        self.reporter_states.wf()
    }

    /// No records and no events.
    pub fn new() -> (r: Self)
        ensures
            r.wf(),
            r.states() == Map::<[u8; 20], ReporterSlashState>::empty(),
            r.pending().len() == 0,
    {
        OracleSlasher { reporter_states: Table::new(), pending_events: Vec::new() }
    }

    /// Records `reporter`'s price for `feed_id` against the round's median
    /// (see `record_deviation_post`); answers the slash, if one is due.
    pub fn record_deviation(&mut self, reporter: [u8; 20], feed_id: FeedId, reported_price: Price, median_price: Price,
        round_id: u64, block: u64) -> (r: Option<OracleSlashEvent>)
        requires
            old(self).wf(),
            is_outlier(reported_price.0, median_price.0) ==> deviation_fits(*old(self), reporter, feed_id.0@, block),
        ensures
            record_deviation_post(*old(self), *final(self), reporter, feed_id.0@, reported_price.0, median_price.0,
                round_id, block, r),
    {
        let ghost pre = *self;
        if !is_outlier_check(reported_price.0, median_price.0) {
            match self.reporter_states.take(&reporter) {
                None => {
                    proof {
                        assert(self.reporter_states.view() =~= pre.reporter_states.view());
                        assert forall|a: [u8; 20]| a != reporter implies {
                            &&& (#[trigger] self.states().dom().contains(a)) == pre.states().dom().contains(a)
                            &&& pre.states().dom().contains(a) ==> self.states()[a] == pre.states()[a]
                        } by {}
                        assert(self.wf());
                        assert(others_unchanged(pre, *self, reporter));
                        assert(self.pending() == pre.pending());
                        assert(self.states().dom() == pre.states().dom());
                        assert(!pre.states().dom().contains(reporter));
                        assert(!is_outlier(reported_price.0, median_price.0));
                        assert(record_deviation_post(pre, *self, reporter, feed_id.0@, reported_price.0, median_price.0,
                            round_id, block, None));
                    }
                },
                Some(mut st) => {
                    let ghost st_a = st;
                    st.set_streak(&feed_id, 0);
                    let ghost st_b = st;
                    st.consecutive_outliers = 0;
                    proof {
                        assert(st.miss_streak@ == st_b.miss_streak@);
                        assert forall|f: Seq<char>| f != feed_id.0@ implies #[trigger] st.streak_of(f) == st_a.streak_of(f) by {
                            assert(st.streak_of(f) == st_b.streak_of(f));
                        }
                    }
                    self.reporter_states.set(reporter, st);
                    proof {
                        assert(self.reporter_states.view() =~= pre.reporter_states.view().insert(reporter, st));
                        assert(self.states().dom() =~= pre.states().dom());
                        assert forall|a: [u8; 20]| a != reporter implies {
                            &&& (#[trigger] self.states().dom().contains(a)) == pre.states().dom().contains(a)
                            &&& pre.states().dom().contains(a) ==> self.states()[a] == pre.states()[a]
                        } by {}
                        assert(self.wf());
                        assert(others_unchanged(pre, *self, reporter));
                        let st1 = self.states()[reporter];
                        let st0 = pre.states()[reporter];
                        assert(st1.streak_of(feed_id.0@) == 0);
                        assert(st1.consecutive_outliers == 0);
                        assert(st1.address == st0.address);
                        assert(st1.slash_history@ == st0.slash_history@);
                        assert(st1.suspended == st0.suspended);
                        assert(pre.states().dom().contains(reporter));
                        assert(record_deviation_post(pre, *self, reporter, feed_id.0@, reported_price.0, median_price.0,
                            round_id, block, None));
                    }
                },
            }
            return None;
        }
        let known = self.reporter_states.contains(&reporter);
        let mut st = match self.reporter_states.take(&reporter) {
            Some(s) => s,
            None => {
                let s = ReporterSlashState::new(reporter);
                proof {
                    assert(s.slash_history@ =~= Seq::<OracleSlashEvent>::empty());
                }
                s
            },
        };
        proof {
            assert forall|f: Seq<char>| #[trigger] st.streak_of(f)
                == (if known { pre.states()[reporter].streak_of(f) } else { 0u32 }) by {
                if !known {
                    if exists|i: int| first_streak(st.miss_streak@, i, f) {
                        let i = choose|i: int| first_streak(st.miss_streak@, i, f);
                    }
                }
            }
        }
        let streak = st.streak(&feed_id) + 1;
        let ghost st_a = st;
        st.set_streak(&feed_id, streak);
        let ghost st_b = st;
        st.consecutive_outliers = st.consecutive_outliers + 1;
        proof {
            assert(st.miss_streak@ == st_b.miss_streak@);
            assert forall|f: Seq<char>| f != feed_id.0@ implies #[trigger] st.streak_of(f)
                == (if known { pre.states()[reporter].streak_of(f) } else { 0u32 }) by {
                assert(st.streak_of(f) == st_b.streak_of(f));
                assert(st_b.streak_of(f) == st_a.streak_of(f));
            }
        }
        if streak == 1 {
            self.reporter_states.set(reporter, st);
            proof {
                assert(self.reporter_states.view() =~= pre.reporter_states.view().insert(reporter, st));
                assert forall|a: [u8; 20]| a != reporter implies {
                    &&& (#[trigger] self.states().dom().contains(a)) == pre.states().dom().contains(a)
                    &&& pre.states().dom().contains(a) ==> self.states()[a] == pre.states()[a]
                } by {}
                let st1 = self.states()[reporter];
                assert(st1.streak_of(feed_id.0@) == 1);
                assert(st1.consecutive_outliers == (if known { pre.states()[reporter].consecutive_outliers as int } else { 0 }) + 1);
                assert(forall|f: Seq<char>| f != feed_id.0@ ==> #[trigger] st1.streak_of(f)
                    == (if known { pre.states()[reporter].streak_of(f) } else { 0u32 }));
                assert(self.pending() == pre.pending());
                assert(record_deviation_post(pre, *self, reporter, feed_id.0@, reported_price.0, median_price.0,
                    round_id, block, None));
            }
            return None;
        }
        let severity = if streak >= SLASH_THRESHOLD { SlashSeverity::Major } else { SlashSeverity::Minor };
        let dev = deviation_bps(reported_price.0, median_price.0);
        let event = OracleSlashEvent::new(reporter, FeedId(feed_id.to_string()), round_id, severity, reported_price,
            median_price, dev, block);
        let ghost st_c = st;
        st.total_slashes = st.total_slashes + 1;
        st.total_slash_bps = st.total_slash_bps + severity.slash_bps();
        let ghost st_d = st;
        proof {
            assert(st_d.miss_streak@ == st_c.miss_streak@);
            assert forall|f: Seq<char>| #[trigger] st_d.streak_of(f) == st_c.streak_of(f) by {}
        }
        if streak >= SLASH_THRESHOLD {
            st.set_streak(&feed_id, 0);
            let ghost st_e = st;
            if st.total_slashes >= 3 {
                st.suspended = true;
            }
            proof {
                assert(st.miss_streak@ == st_e.miss_streak@);
                assert forall|f: Seq<char>| f != feed_id.0@ implies #[trigger] st.streak_of(f) == st_c.streak_of(f) by {
                    assert(st.streak_of(f) == st_e.streak_of(f));
                    assert(st_e.streak_of(f) == st_d.streak_of(f));
                }
            }
        }
        self.reporter_states.set(reporter, st);
        let ghost mid = self.pending_events@;
        self.pending_events.push(event.copied());
        proof {
            assert(self.pending_events@.subrange(0, mid.len() as int) =~= mid);
            assert(self.reporter_states.view() =~= pre.reporter_states.view().insert(reporter, st));
            assert forall|a: [u8; 20]| a != reporter implies {
                &&& (#[trigger] self.states().dom().contains(a)) == pre.states().dom().contains(a)
                &&& pre.states().dom().contains(a) ==> self.states()[a] == pre.states()[a]
            } by {}
            assert forall|f: Seq<char>| f != feed_id.0@ implies #[trigger] st.streak_of(f)
                == (if known { pre.states()[reporter].streak_of(f) } else { 0u32 }) by {
                assert(st.streak_of(f) == st_c.streak_of(f));
            }
            assert(record_deviation_post(pre, *self, reporter, feed_id.0@, reported_price.0, median_price.0,
                round_id, block, Some(event)));
        }
        Some(event)
    }

    /// Slashes every reporter of `reporters` (once per occurrence) for a
    /// coordinated manipulation of `feed_id`: a critical event each, appended
    /// to the pending events in order; each record gains one slash of
    /// `SLASH_BPS_CRITICAL` per occurrence and is suspended.
    pub fn record_coordinated_attack(&mut self, reporters: &[[u8; 20]], feed_id: FeedId, bad_price: Price,
        median_price: Price, round_id: u64, block: u64) -> (r: Vec<OracleSlashEvent>)
        requires
            old(self).wf(),
            reporters@.len() > 0 ==> block + APPEAL_WINDOW_BLOCKS <= u64::MAX,
            forall|a: [u8; 20]| #[trigger] slashes_of(*old(self), a) + occ(reporters@, reporters@.len() as int, a) <= u32::MAX
                && bps_of(*old(self), a) + SLASH_BPS_CRITICAL * occ(reporters@, reporters@.len() as int, a) <= u32::MAX,
        ensures
            coordinated_post(*old(self), *final(self), reporters@, feed_id.0@, bad_price.0, median_price.0, round_id,
                block, reporters@.len() as int, r@),
    {
        let ghost pre = *self;
        let dev = deviation_bps(bad_price.0, median_price.0);
        let mut out: Vec<OracleSlashEvent> = Vec::new();
        let mut i: usize = 0;
        proof {
            assert(self.pending().subrange(0, pre.pending().len() as int) =~= pre.pending());
        }
        while i < reporters.len()
            invariant
                0 <= i <= reporters@.len(),
                pre.wf(),
                reporters@.len() > 0 ==> block + APPEAL_WINDOW_BLOCKS <= u64::MAX,
                dev == deviation_bps_spec(bad_price.0, median_price.0),
                forall|a: [u8; 20]| #[trigger] slashes_of(pre, a) + occ(reporters@, reporters@.len() as int, a) <= u32::MAX
                    && bps_of(pre, a) + SLASH_BPS_CRITICAL * occ(reporters@, reporters@.len() as int, a) <= u32::MAX,
                coordinated_post(pre, *self, reporters@, feed_id.0@, bad_price.0, median_price.0, round_id, block,
                    i as int, out@),
            decreases reporters@.len() - i,
        {
            let reporter = reporters[i];
            proof {
                lemma_occ_le(reporters@, i as int + 1, reporters@.len() as int, reporter);
                assert(occ(reporters@, i as int + 1, reporter) == occ(reporters@, i as int, reporter) + 1);
            }
            let ghost cur = *self;
            let event = OracleSlashEvent::new(reporter, FeedId(feed_id.to_string()), round_id, SlashSeverity::Critical,
                bad_price, median_price, dev, block);
            let mut st = match self.reporter_states.take(&reporter) {
                Some(s) => s,
                None => {
                    let s = ReporterSlashState::new(reporter);
                    proof {
                        assert(s.slash_history@ =~= Seq::<OracleSlashEvent>::empty());
                        assert forall|f: Seq<char>| #[trigger] s.streak_of(f) == 0u32 by {
                            if exists|j: int| first_streak(s.miss_streak@, j, f) {
                                let j = choose|j: int| first_streak(s.miss_streak@, j, f);
                            }
                        }
                    }
                    s
                },
            };
            let ghost st_a = st;
            proof {
                let o = occ(reporters@, i as int, reporter);
                let full = occ(reporters@, reporters@.len() as int, reporter);
                lemma_occ_le(reporters@, 0, i as int, reporter);
                let in_cur = cur.states().dom().contains(reporter);
                assert(in_cur == (pre.states().dom().contains(reporter) || o > 0));
                if in_cur {
                    assert(st == cur.states()[reporter]);
                }
                if o > 0 {
                    assert(slashed_record(pre, cur, reporter, o));
                } else if pre.states().dom().contains(reporter) {
                    assert(cur.states()[reporter] == pre.states()[reporter]);
                }
                assert(st.total_slashes == slashes_of(pre, reporter) + o);
                assert(st.total_slash_bps == bps_of(pre, reporter) + SLASH_BPS_CRITICAL * o);
                assert(slashes_of(pre, reporter) + full <= u32::MAX);
                assert(SLASH_BPS_CRITICAL * o + SLASH_BPS_CRITICAL <= SLASH_BPS_CRITICAL * full) by (nonlinear_arith)
                    requires o + 1 <= full;
            }
            st.total_slashes = st.total_slashes + 1;
            st.total_slash_bps = st.total_slash_bps + SLASH_BPS_CRITICAL;
            st.suspended = true;
            proof {
                assert(st.miss_streak@ == st_a.miss_streak@);
                assert forall|f: Seq<char>| #[trigger] st.streak_of(f) == st_a.streak_of(f) by {}
            }
            self.reporter_states.set(reporter, st);
            let ghost before = self.pending_events@;
            self.pending_events.push(event.copied());
            let ghost out0 = out@;
            out.push(event);
            i += 1;
            proof {
                assert(self.reporter_states.view() =~= cur.reporter_states.view().insert(reporter, st));
                assert(self.pending().subrange(0, pre.pending().len() as int) =~= pre.pending()) by {
                    assert(before.subrange(0, pre.pending().len() as int) =~= pre.pending());
                }
                assert forall|k: int| 0 <= k < i implies event_is(#[trigger] out@[k], reporters@[k], feed_id.0@, round_id,
                    SlashSeverity::Critical, bad_price.0, median_price.0, dev, block) by {
                    if k < i - 1 {
                        assert(out@[k] == out0[k]);
                    }
                }
                assert forall|k: int| 0 <= k < i implies event_is(#[trigger] self.pending()[pre.pending().len() + k],
                    reporters@[k], feed_id.0@, round_id, SlashSeverity::Critical, bad_price.0, median_price.0, dev, block) by {
                    if k < i - 1 {
                        assert(self.pending()[pre.pending().len() + k] == before[pre.pending().len() + k]);
                    }
                }
                assert forall|a: [u8; 20]| #[trigger] self.states().dom().contains(a)
                    == (pre.states().dom().contains(a) || occ(reporters@, i as int, a) > 0) by {
                    if a != reporter {
                        assert(occ(reporters@, i as int, a) == occ(reporters@, i - 1, a));
                    }
                }
                assert forall|a: [u8; 20]| occ(reporters@, i as int, a) > 0 implies #[trigger] slashed_record(pre, *self, a,
                    occ(reporters@, i as int, a)) by {
                    if a != reporter {
                        assert(occ(reporters@, i as int, a) == occ(reporters@, i - 1, a));
                        assert(slashed_record(pre, cur, a, occ(reporters@, i - 1, a)));
                        assert(self.states()[a] == cur.states()[a]);
                    } else {
                        let o = occ(reporters@, i - 1, reporter);
                        lemma_occ_le(reporters@, 0, i - 1, reporter);
                        let known = pre.states().dom().contains(reporter);
                        if o > 0 {
                            assert(slashed_record(pre, cur, reporter, o));
                        } else if known {
                            assert(cur.states()[reporter] == pre.states()[reporter]);
                        }
                        assert(self.states()[reporter] == st);
                        assert(st.address == (if known { pre.states()[reporter].address } else { reporter }));
                        assert(st.consecutive_outliers == (if known { pre.states()[reporter].consecutive_outliers } else { 0 }));
                        assert(st.slash_history@ == (if known { pre.states()[reporter].slash_history@ } else { Seq::empty() }));
                        assert forall|f: Seq<char>| #[trigger] st.streak_of(f)
                            == (if known { pre.states()[reporter].streak_of(f) } else { 0u32 }) by {
                            assert(st.streak_of(f) == st_a.streak_of(f));
                        }
                    }
                }
                assert forall|a: [u8; 20]| occ(reporters@, i as int, a) == 0 && pre.states().dom().contains(a)
                    implies #[trigger] self.states()[a] == pre.states()[a] by {
                    if a != reporter {
                        assert(occ(reporters@, i as int, a) == occ(reporters@, i - 1, a));
                    }
                }
            }
        }
        out
    }

    /// Takes all pending slash events, oldest first, leaving none.
    pub fn take_pending(&mut self) -> (r: Vec<OracleSlashEvent>)
        ensures
            r@ == old(self).pending(),
            final(self).pending().len() == 0,
            final(self).states() == old(self).states(),
            final(self).wf() == old(self).wf(),
    {
        let mut out: Vec<OracleSlashEvent> = Vec::new();
        std::mem::swap(&mut out, &mut self.pending_events);
        out
    }

    /// The record of `reporter`, if it has one.
    pub fn reporter_state(&self, reporter: &[u8; 20]) -> (r: Option<&ReporterSlashState>)
        requires
            self.wf(),
        ensures
            match r {
                Some(st) => self.states().dom().contains(*reporter) && *st == self.states()[*reporter],
                None => !self.states().dom().contains(*reporter),
            },
    {
        self.reporter_states.get(reporter)
    }

    /// Whether `reporter` is suspended (false without a record).
    pub fn is_suspended(&self, reporter: &[u8; 20]) -> (r: bool)
        requires
            self.wf(),
        ensures
            r == (self.states().dom().contains(*reporter) && self.states()[*reporter].suspended),
    {
        match self.reporter_states.get(reporter) {
            Some(st) => st.suspended,
            None => false,
        }
    }

    /// The number of pending slash events.
    pub fn total_events(&self) -> (r: usize)
        ensures
            r == self.pending().len(),
    {
        self.pending_events.len()
    }
}

impl Default for OracleSlasher {
    fn default() -> (r: Self)
        ensures
            r.wf(),
            r.states() == Map::<[u8; 20], ReporterSlashState>::empty(),
            r.pending().len() == 0,
    {
        Self::new()
    }
}

} // verus!
