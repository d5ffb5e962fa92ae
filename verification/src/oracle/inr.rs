//! The cached USD/INR price that serves when every live source fails.

use vstd::prelude::*;
use crate::oracle::feed::Price;

verus! {

/// How old a cached USD/INR price may be and still serve (30 days).
pub const MAX_CACHE_AGE_SECS: u64 = 2_592_000;

/// Largest deviation of an AI-estimated USD/INR rate from the cached price,
/// in basis points (5%).
pub const AI_MAX_CACHE_DEVIATION_BPS: u64 = 500;
/// Lowest AI-estimated USD/INR rate accepted without a cache (₹50, raw).
pub const AI_MIN_RATE: i128 = 5_000_000_000;
/// Highest AI-estimated USD/INR rate accepted without a cache (₹150, raw).
pub const AI_MAX_RATE: i128 = 15_000_000_000;

/// `|a - b|`.
pub open spec fn abs_diff(a: i128, b: i128) -> int {
    if a >= b { a - b } else { b - a }
}

/// Whether an AI-estimated rate is accepted: it must lie in
/// `[AI_MIN_RATE, AI_MAX_RATE]`, and with a cached price `c` it is also
/// rejected when `c >= 0` and it lies more than 5% of `c` away (a negative
/// reference rejects nothing more).
pub open spec fn ai_rate_accepted_spec(rate: i128, cached: Option<i128>) -> bool {
    &&& AI_MIN_RATE <= rate <= AI_MAX_RATE
    &&& match cached {
        Some(c) => !(c >= 0 && abs_diff(rate, c) * 10_000 > AI_MAX_CACHE_DEVIATION_BPS * c),
        None => true,
    }
}

/// Checks an AI-estimated USD/INR rate against the absolute range and,
/// when a price is cached, against the cached price.
pub fn ai_rate_accepted(rate: Price, cached: Option<Price>) -> (r: bool)
    ensures
        r == ai_rate_accepted_spec(rate.0, match cached { Some(c) => Some(c.0), None => None }),
{
    if !(AI_MIN_RATE <= rate.0 && rate.0 <= AI_MAX_RATE) {
        return false;
    }
    match cached {
        Some(c) => {
            let c = c.0;
            let x = rate.0;
            if c < 0 {
                return true;
            }
            let d: u128 = if x >= c {
                (x - c) as u128
            } else if x >= 0 {
                (c - x) as u128
            } else {
                (c as u128) + ((-(x + 1)) as u128) + 1
            };
            let q: u128 = (c as u128) / 20;
            proof {
                assert(abs_diff(x, c) * 10_000 > AI_MAX_CACHE_DEVIATION_BPS * c <==> d > q) by (nonlinear_arith)
                    requires
                        d == abs_diff(x, c),
                        q == c / 20,
                        c >= 0,
                        d >= 0,
                        AI_MAX_CACHE_DEVIATION_BPS == 500;
            }
            d <= q
        },
        None => true,
    }
}

/// A USD/INR price published earlier, with its time.
#[derive(Debug, Clone, Copy)]
pub struct CachedInrPrice {
    pub price: Price,
    /// Unix time (seconds) of the fetch.
    pub timestamp_secs: u64,
}

/// `a - b`, or zero when `b > a`.
pub open spec fn sat_sub_u64(a: u64, b: u64) -> int {
    if a >= b { a - b } else { 0 }
}

#[verifier::external_type_specification]
#[verifier::external_body]
pub struct ExSystemTime(std::time::SystemTime);

#[verifier::external_type_specification]
#[verifier::external_body]
pub struct ExSystemTimeError(std::time::SystemTimeError);

/// Calls `SystemTime::now`; nothing is promised of the reading.
#[verifier::external_body]
fn system_now() -> (r: std::time::SystemTime) {
    std::time::SystemTime::now()
}

/// Calls `SystemTime::duration_since` with the Unix epoch; nothing is
/// promised of the result.
#[verifier::external_body]
fn since_unix_epoch(t: &std::time::SystemTime) -> (r: Result<std::time::Duration, std::time::SystemTimeError>) {
    t.duration_since(std::time::UNIX_EPOCH)
}

/// Calls `Duration::as_secs`; the duration is opaque here.
#[verifier::external_body]
fn duration_secs(d: &std::time::Duration) -> (r: u64) {
    d.as_secs()
}

/// Whole seconds since the Unix epoch on the system clock (zero if the
/// clock reads earlier).
fn now_secs() -> (r: u64) {
    let t = system_now();
    match since_unix_epoch(&t) {
        Ok(d) => duration_secs(&d),
        Err(_) => 0,
    }
}

impl CachedInrPrice {
    /// The age of the price at time `now` (zero if `now` is earlier).
    pub fn age_secs_at(&self, now: u64) -> (r: u64)
        ensures
            r == sat_sub_u64(now, self.timestamp_secs),
    {
        now.saturating_sub(self.timestamp_secs)
    }

    /// The age of the price now.
    pub fn age_secs(&self) -> (r: u64) {
        let now = now_secs();
        self.age_secs_at(now)
    }

    /// The age in whole hours at time `now`.
    pub fn age_hours_at(&self, now: u64) -> (r: u64)
        ensures
            r == sat_sub_u64(now, self.timestamp_secs) / 3600,
    {
        self.age_secs_at(now) / 3600
    }

    /// The age in whole hours now.
    pub fn age_hours(&self) -> (r: u64) {
        let now = now_secs();
        self.age_hours_at(now)
    }

    /// Whether the price is at most 30 days old at time `now`.
    pub fn is_valid_at(&self, now: u64) -> (r: bool)
        ensures
            r == (sat_sub_u64(now, self.timestamp_secs) <= MAX_CACHE_AGE_SECS),
    {
        self.age_secs_at(now) <= MAX_CACHE_AGE_SECS
    }

    /// Whether the price is at most 30 days old now.
    pub fn is_valid(&self) -> (r: bool) {
        let now = now_secs();
        self.is_valid_at(now)
    }
}

/// The age at time `now` of the cached price, if one is cached.
pub fn usd_inr_cache_age_secs_at(cache: &Option<CachedInrPrice>, now: u64) -> (r: Option<u64>)
    ensures
        match *cache {
            Some(c) => r == Some(sat_sub_u64(now, c.timestamp_secs) as u64),
            None => r is None,
        },
{
    match cache {
        Some(c) => Some(c.age_secs_at(now)),
        None => None,
    }
}

/// The age now of the cached price, if one is cached (the cache itself is
/// held by the caller).
pub fn usd_inr_cache_age_secs(cache: &Option<CachedInrPrice>) -> (r: Option<u64>)
    ensures
        r is Some <==> cache is Some,
{
    let now = now_secs();
    usd_inr_cache_age_secs_at(cache, now)
}

/// A copy of the cached USD/INR price, if one is cached (the cache itself
/// is held by the caller).
pub fn usd_inr_cached_price(cache: &Option<CachedInrPrice>) -> (r: Option<CachedInrPrice>)
    ensures
        r == *cache,
{
    *cache
}

} // verus!
