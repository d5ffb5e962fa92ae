//! Aggregation of reporters' prices into one: keep the sane, fresh
//! reports, sort their prices, drop outliers outside
//! `[Q1 - k·IQR, Q3 + k·IQR]` (only with four or more prices), and take the
//! median of the rest.

use vstd::prelude::*;
use crate::common::{i128_le, sort_i128, tdiv};
use crate::oracle::error::OracleError;
use crate::oracle::feed::Price;
use crate::oracle::reporter::PriceReport;

verus! {

/// Seconds after which a report is too old to aggregate.
pub const REPORT_MAX_AGE_SECS: u64 = 300;

/// The outcome of aggregating one round.
#[derive(Clone, Copy, Debug)]
pub struct AggregateResult {
    /// The median of the prices kept.
    pub price: Price,
    /// How many prices were kept.
    pub reporter_count: u32,
    /// How many prices were dropped as outliers.
    pub outliers_removed: u32,
    /// The lowest and highest sane, fresh price.
    pub price_range: (Price, Price),
    /// When the aggregation ran.
    pub timestamp: u64,
}

/// The aggregation settings.
#[derive(Clone, Copy, Debug)]
pub struct OracleAggregator {
    /// How many interquartile ranges beyond the quartiles a price may lie.
    pub iqr_multiplier: u32,
    /// The fewest prices an aggregation needs.
    pub min_reporters: u32,
}

impl Default for OracleAggregator {
    fn default() -> (r: Self)
        ensures
            r.iqr_multiplier == 3,
            r.min_reporters == 3,
    {
        OracleAggregator { iqr_multiplier: 3, min_reporters: 3 }
    }
}

/// Whether a report takes part: a sane price, at most
/// `REPORT_MAX_AGE_SECS` old at `now`.
pub open spec fn report_counts(r: PriceReport, now: u64) -> bool {
    r.price.spec_is_valid() && !(now >= r.timestamp && now - r.timestamp > REPORT_MAX_AGE_SECS)
}

/// The prices of the reports among the first `k` that take part, in order.
pub open spec fn counted_prices(reports: Seq<PriceReport>, k: int, now: u64) -> Seq<i128>
    decreases k,
{
    if k <= 0 {
        Seq::empty()
    } else if report_counts(reports[k - 1], now) {
        counted_prices(reports, k - 1, now).push(reports[k - 1].price.0)
    } else {
        counted_prices(reports, k - 1, now)
    }
}

/// The lowest price an outlier check keeps.
pub open spec fn iqr_low(s: Seq<i128>, mult: u32) -> int {
    let a = (s.len() / 4) as int;
    let b = (3 * s.len() / 4) as int;
    s[a] - mult * (s[b] - s[a])
}

/// The highest price an outlier check keeps.
pub open spec fn iqr_high(s: Seq<i128>, mult: u32) -> int {
    let a = (s.len() / 4) as int;
    let b = (3 * s.len() / 4) as int;
    s[b] + mult * (s[b] - s[a])
}

/// The prices among the first `k` of `s` within `[lo, hi]`, in order.
pub open spec fn within(s: Seq<i128>, k: int, lo: int, hi: int) -> Seq<i128>
    decreases k,
{
    if k <= 0 {
        Seq::empty()
    } else if lo <= s[k - 1] <= hi {
        within(s, k - 1, lo, hi).push(s[k - 1])
    } else {
        within(s, k - 1, lo, hi)
    }
}

/// The sorted prices without outliers: all of them when there are fewer
/// than four.
pub open spec fn without_outliers(s: Seq<i128>, mult: u32) -> Seq<i128> {
    if s.len() < 4 { s } else { within(s, s.len() as int, iqr_low(s, mult), iqr_high(s, mult)) }
}

/// The median of sorted prices: the middle one, or the mean of the two
/// middle ones rounded down.
pub open spec fn median_spec(s: Seq<i128>) -> int {
    let m = (s.len() / 2) as int;
    if s.len() % 2 == 1 { s[m] as int } else { tdiv(s[m - 1] + s[m], 2) }
}

/// What `aggregate` answers for `reports` at `now`.
pub open spec fn aggregate_spec(agg: OracleAggregator, reports: Seq<PriceReport>, now: u64) -> Result<AggregateResult, OracleError> {
    let v = counted_prices(reports, reports.len() as int, now);
    let s = v.sort_by(i128_le());
    let c = without_outliers(s, agg.iqr_multiplier);
    let n = s.len();
    if reports.len() == 0 {
        Err(OracleError::NoReports)
    } else if v.len() < agg.min_reporters {
        Err(OracleError::InsufficientReporters { got: v.len() as usize, required: agg.min_reporters as usize })
    } else if c.len() < agg.min_reporters {
        Err(OracleError::TooManyOutliers { total: n as usize, outliers: (n - c.len()) as u32 as usize })
    } else {
        Ok(AggregateResult {
            price: Price(median_spec(c) as i128),
            reporter_count: c.len() as u32,
            outliers_removed: (n - c.len()) as u32,
            price_range: (Price(s[0]), Price(s[n - 1])),
            timestamp: now,
        })
    }
}

impl OracleAggregator {
    /// An aggregator needing `min_reporters` prices, dropping outliers
    /// beyond three interquartile ranges.
    pub fn new(min_reporters: u32) -> (r: Self)
        ensures
            r.iqr_multiplier == 3,
            r.min_reporters == min_reporters,
    {
        OracleAggregator { iqr_multiplier: 3, min_reporters }
    }

    /// Aggregates reports into one price: refused without reports, with
    /// fewer sane, fresh prices than `min_reporters`, or with fewer left
    /// after dropping outliers.
    pub fn aggregate(&self, reports: &[PriceReport], timestamp: u64) -> (r: Result<AggregateResult, OracleError>)
        requires
            reports@.len() > 0 && self.min_reporters == 0 ==> counted_prices(reports@, reports@.len() as int, timestamp).len() > 0,
        ensures
            r == aggregate_spec(*self, reports@, timestamp),
    {
        if reports.len() == 0 {
            return Err(OracleError::NoReports);
        }
        let mut prices: Vec<i128> = Vec::new();
        let mut i: usize = 0;
        while i < reports.len()
            invariant
                0 <= i <= reports@.len(),
                prices@ == counted_prices(reports@, i as int, timestamp),
                forall|k: int| 0 <= k < prices@.len() ==> Price(#[trigger] prices@[k]).spec_is_valid(),
            decreases reports@.len() - i,
        {
            if reports[i].price.is_valid() && !reports[i].is_expired(timestamp, REPORT_MAX_AGE_SECS) {
                prices.push(reports[i].price.0);
            }
            i += 1;
        }
        if prices.len() < self.min_reporters as usize {
            return Err(OracleError::InsufficientReporters { got: prices.len(), required: self.min_reporters as usize });
        }
        let sorted = sort_i128(&prices);
        proof {
            prices@.lemma_sort_by_ensures(i128_le());
            assert forall|k: int| 0 <= k < sorted@.len() implies Price(#[trigger] sorted@[k]).spec_is_valid() by {
                assert(sorted@.contains(sorted@[k]));
                assert(prices@.contains(sorted@[k]));
                let j = choose|j: int| 0 <= j < prices@.len() && prices@[j] == sorted@[k];
                assert(Price(prices@[j]).spec_is_valid());
            }
        }
        let n = sorted.len();
        let min_p = Price(sorted[0]);
        let max_p = Price(sorted[n - 1]);
        let clean = self.remove_outliers(&sorted);
        let outliers_removed = (n - clean.len()) as u32;
        if clean.len() < self.min_reporters as usize {
            return Err(OracleError::TooManyOutliers { total: n, outliers: outliers_removed as usize });
        }
        let median = compute_median(&clean);
        Ok(AggregateResult {
            price: median,
            reporter_count: clean.len() as u32,
            outliers_removed,
            price_range: (min_p, max_p),
            timestamp,
        })
    }

    /// The sorted prices without outliers (all of them below four).
    fn remove_outliers(&self, sorted: &Vec<i128>) -> (r: Vec<i128>)
        requires
            vstd::relations::sorted_by(sorted@, i128_le()),
            sorted@.len() > 0,
            forall|k: int| 0 <= k < sorted@.len() ==> Price(#[trigger] sorted@[k]).spec_is_valid(),
        ensures
            r@ == without_outliers(sorted@, self.iqr_multiplier),
            r@.len() > 0,
            forall|k: int| 0 <= k < r@.len() ==> Price(#[trigger] r@[k]).spec_is_valid(),
            r@.len() <= sorted@.len(),
    {
        let n = sorted.len();
        if n < 4 {
            return sorted.clone();
        }
        let q1 = sorted[n / 4];
        let i3 = (3 * (n as u128) / 4) as usize;
        let q3 = sorted[i3];
        proof {
            assert(i128_le()(sorted@[(n / 4) as int], sorted@[(3 * n / 4) as int]));
            assert(Price(sorted@[(n / 4) as int]).spec_is_valid() && Price(sorted@[(3 * n / 4) as int]).spec_is_valid());
        }
        let iqr = q3 - q1;
        proof {
            assert(0 <= iqr < 1_000_000_000_000_000_000);
            assert((self.iqr_multiplier as int) * iqr <= 4_294_967_296int * 1_000_000_000_000_000_000int) by (nonlinear_arith)
                requires 0 <= iqr < 1_000_000_000_000_000_000int, 0 <= self.iqr_multiplier <= 4_294_967_295int;
            assert((self.iqr_multiplier as int) * iqr >= 0) by (nonlinear_arith)
                requires 0 <= iqr, 0 <= self.iqr_multiplier;
        }
        let spread = (self.iqr_multiplier as i128) * iqr;
        let lo = q1 - spread;
        let hi = q3 + spread;
        let mut out: Vec<i128> = Vec::new();
        let mut i: usize = 0;
        while i < n
            invariant
                n == sorted@.len(),
                n >= 4,
                0 <= i <= n,
                lo == iqr_low(sorted@, self.iqr_multiplier),
                hi == iqr_high(sorted@, self.iqr_multiplier),
                out@ == within(sorted@, i as int, lo as int, hi as int),
                forall|k: int| 0 <= k < sorted@.len() ==> Price(#[trigger] sorted@[k]).spec_is_valid(),
                forall|k: int| 0 <= k < out@.len() ==> Price(#[trigger] out@[k]).spec_is_valid(),
                out@.len() <= i,
                i > n / 4 ==> out@.len() > 0,
                lo <= q1 <= hi,
                q1 == sorted@[(n / 4) as int],
            decreases n - i,
        {
            let p = sorted[i];
            if lo <= p && p <= hi {
                out.push(p);
            }
            i += 1;
        }
        out
    }
}

/// The median of sorted prices: the middle one, or the two middle ones
/// averaged with division rounding toward zero (their sum must fit).
fn compute_median(sorted: &Vec<i128>) -> (r: Price)
    requires
        sorted@.len() > 0,
        sorted@.len() % 2 == 0 ==> i128::MIN <= sorted@[(sorted@.len() / 2) as int - 1] + sorted@[(sorted@.len() / 2) as int] <= i128::MAX,
    ensures
        r.0 == median_spec(sorted@),
{
    let n = sorted.len();
    if n % 2 == 1 {
        Price(sorted[n / 2])
    } else {
        let mid_lo = sorted[n / 2 - 1];
        let mid_hi = sorted[n / 2];
        Price((mid_lo + mid_hi) / 2)
    }
}

} // verus!
