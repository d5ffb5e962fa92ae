//! Oracle error values.

use vstd::prelude::*;
use crate::oracle::feed::FeedId;

verus! {

/// Errors raised by the oracle.
#[derive(Debug, Clone)]
pub enum OracleError {
    NoReports,
    InsufficientReporters { required: usize, got: usize },
    TooManyOutliers { total: usize, outliers: usize },
    RoundNotOpen(u64),
    NoOpenRound,
    UnauthorizedReporter([u8; 20]),
    DuplicateReport([u8; 20]),
    InvalidSignature,
    ReportExpired,
    InvalidPrice(i128),
    UnknownFeed(FeedId),
    AllSourcesFailed(FeedId),
    StalePriceUsed { feed: String, age_hours: u64 },
    AllSourcesFailedNoCache(FeedId),
    Http(String),
    OnChainSubmit(String),
    BelowMinAnswer { feed: String, reported: i128, min_answer: i128 },
    AboveMaxAnswer { feed: String, reported: i128, max_answer: i128 },
}

} // verus!
