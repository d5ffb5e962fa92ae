//! The settings of the oracle service that a node runs (the feeds it
//! watches, the aggregator it reports to and its timing).

use vstd::prelude::*;

verus! {

/// The oracle service's settings.
#[derive(Debug)]
pub struct OracleScheduler {
    feeds: Vec<String>,
    aggregator_address: String,
    report_interval_secs: u64,
    heartbeat_secs: u64,
    deviation_threshold: String,
    is_reporter: bool,
}

impl OracleScheduler {
    /// The feed symbols, such as `"ZBX/USD"`.
    pub closed spec fn spec_feeds(&self) -> Seq<Seq<char>> {
        self.feeds@.map_values(|f: String| f@)
    }

    /// The aggregator contract address (hex).
    pub closed spec fn spec_aggregator_address(&self) -> Seq<char> {
        self.aggregator_address@
    }

    /// Seconds between reports.
    pub closed spec fn spec_report_interval_secs(&self) -> u64 {
        self.report_interval_secs
    }

    /// Seconds a feed may go without an update.
    pub closed spec fn spec_heartbeat_secs(&self) -> u64 {
        self.heartbeat_secs
    }

    /// The fractional change that triggers an update, as text (`"0.005"`).
    pub closed spec fn spec_deviation_threshold(&self) -> Seq<char> {
        self.deviation_threshold@
    }

    /// Whether this node submits price reports.
    pub closed spec fn spec_is_reporter(&self) -> bool {
        self.is_reporter
    }

    /// The service with these settings.
    pub fn new(feeds: Vec<String>, aggregator_address: String, report_interval_secs: u64, heartbeat_secs: u64,
        deviation_threshold: String, is_reporter: bool) -> (r: Self)
        ensures
            r.spec_feeds() == feeds@.map_values(|f: String| f@),
            r.spec_aggregator_address() == aggregator_address@,
            r.spec_report_interval_secs() == report_interval_secs,
            r.spec_heartbeat_secs() == heartbeat_secs,
            r.spec_deviation_threshold() == deviation_threshold@,
            r.spec_is_reporter() == is_reporter,
    {
        OracleScheduler { feeds, aggregator_address, report_interval_secs, heartbeat_secs, deviation_threshold, is_reporter }
    }
}

} // verus!
