//! Oracle rounds: a round opens, collects signed reports from whitelisted
//! reporters, and closes with an aggregated price or fails; rounds are
//! numbered from 1 per feed.

use vstd::prelude::*;
use crate::oracle::aggregator::{aggregate_spec, counted_prices, AggregateResult, OracleAggregator};
use crate::oracle::error::OracleError;
use crate::oracle::feed::{FeedId, Price};
use crate::oracle::reporter::{signed_by, signing_message_spec, PriceReport};

verus! {

/// Round number within a feed, from 1.
pub type RoundId = u64;

/// Seconds a report stays fresh in a round opened by the round manager.
pub const ROUND_MAX_AGE_SECS: u64 = 300;

/// Where a round stands.
#[derive(Debug)]
pub enum RoundState {
    /// Collecting reports since `opened_at`.
    Open { opened_at: u64 },
    /// Aggregated.
    Closed { result: AggregateResult },
    /// Aggregation failed for `reason`.
    Failed { reason: OracleError },
}

/// Whether a report's signature recovers to its reporter.
pub open spec fn report_signed(r: PriceReport) -> bool {
    signed_by(signing_message_spec(r.feed_id.0@, r.price.0, r.timestamp), r.signature@, r.reporter@)
}

/// One round of one feed.
#[derive(Debug)]
pub struct OracleRound {
    pub round_id: RoundId,
    pub feed_id: FeedId,
    pub state: RoundState,
    /// Accepted reports, in order of arrival.
    pub reports: Vec<PriceReport>,
    /// Seconds a report stays fresh.
    pub max_age_secs: u64,
}

impl OracleRound {
    /// An open round with no report.
    pub fn open(round_id: RoundId, feed_id: FeedId, now: u64, max_age_secs: u64) -> (r: Self)
        ensures
            r.round_id == round_id,
            r.feed_id == feed_id,
            r.state == (RoundState::Open { opened_at: now }),
            r.reports@.len() == 0,
            r.max_age_secs == max_age_secs,
    {
        OracleRound { round_id, feed_id, state: RoundState::Open { opened_at: now }, reports: Vec::new(), max_age_secs }
    }

    /// Accepts a report: the round must be open, the reporter whitelisted
    /// and new to the round, the signature good and the report fresh.
    pub fn add_report(&mut self, report: PriceReport, now: u64, whitelist: &[[u8; 20]]) -> (r: Result<(), OracleError>)
        ensures
            final(self).round_id == old(self).round_id,
            final(self).feed_id == old(self).feed_id,
            final(self).state == old(self).state,
            final(self).max_age_secs == old(self).max_age_secs,
            !(old(self).state is Open) ==> (r matches Err(OracleError::RoundNotOpen(id)) && id == old(self).round_id),
            old(self).state is Open && !whitelist@.contains(report.reporter)
                ==> (r matches Err(OracleError::UnauthorizedReporter(a)) && a == report.reporter),
            old(self).state is Open && whitelist@.contains(report.reporter)
                && (exists|i: int| 0 <= i < old(self).reports@.len() && (#[trigger] old(self).reports@[i]).reporter == report.reporter)
                ==> (r matches Err(OracleError::DuplicateReport(a)) && a == report.reporter),
            r is Ok <==> old(self).state is Open && whitelist@.contains(report.reporter)
                && !(exists|i: int| 0 <= i < old(self).reports@.len() && (#[trigger] old(self).reports@[i]).reporter == report.reporter)
                && report_signed(report)
                && !(now >= report.timestamp && now - report.timestamp > old(self).max_age_secs),
            r is Ok ==> final(self).reports@ == old(self).reports@.push(report),
            r is Err ==> final(self).reports@ == old(self).reports@,
            r matches Err(e) ==> (e is RoundNotOpen || e is UnauthorizedReporter || e is DuplicateReport
                || e is InvalidSignature || e is ReportExpired),
            old(self).state is Open && whitelist@.contains(report.reporter)
                && !(exists|i: int| 0 <= i < old(self).reports@.len() && (#[trigger] old(self).reports@[i]).reporter == report.reporter)
                && !report_signed(report) ==> r matches Err(OracleError::InvalidSignature),
    {
        match self.state {
            RoundState::Open { .. } => {},
            _ => return Err(OracleError::RoundNotOpen(self.round_id)),
        }
        let mut w: usize = 0;
        let mut listed = false;
        while w < whitelist.len()
            invariant
                0 <= w <= whitelist@.len(),
                listed == (exists|k: int| 0 <= k < w && whitelist@[k] == report.reporter),
            decreases whitelist@.len() - w,
        {
            if crate::common::bytes20_eq(&whitelist[w], &report.reporter) {
                proof {
                    assert(whitelist@[w as int]@ =~= report.reporter@);
                    assert(whitelist@[w as int] == report.reporter);
                }
                listed = true;
            }
            w += 1;
        }
        if !listed {
            return Err(OracleError::UnauthorizedReporter(report.reporter));
        }
        proof {
            let k = choose|k: int| 0 <= k < whitelist@.len() && whitelist@[k] == report.reporter;
            assert(whitelist@.contains(report.reporter));
        }
        let mut i: usize = 0;
        while i < self.reports.len()
            invariant
                *self == *old(self),
                self.state is Open,
                whitelist@.contains(report.reporter),
                0 <= i <= self.reports@.len(),
                forall|k: int| 0 <= k < i ==> (#[trigger] self.reports@[k]).reporter != report.reporter,
            decreases self.reports@.len() - i,
        {
            if crate::common::bytes20_eq(&self.reports[i].reporter, &report.reporter) {
                proof {
                    assert(self.reports@[i as int].reporter@ =~= report.reporter@);
                    assert(self.reports@[i as int].reporter == report.reporter);
                }
                return Err(OracleError::DuplicateReport(report.reporter));
            }
            i += 1;
        }
        if !report.verify_sig() {
            return Err(OracleError::InvalidSignature);
        }
        if report.is_expired(now, self.max_age_secs) {
            return Err(OracleError::ReportExpired);
        }
        self.reports.push(report);
        Ok(())
    }

    /// Closes an open round with the aggregate of its reports; on failure
    /// the round is marked failed (keeping a copy of the error) and the
    /// error returned.
    pub fn close(&mut self, aggregator: &OracleAggregator, now: u64, min_reporters: u32) -> (r: Result<AggregateResult, OracleError>)
        requires
            old(self).reports@.len() > 0 && aggregator.min_reporters == 0
                ==> counted_prices(old(self).reports@, old(self).reports@.len() as int, now).len() > 0,
        ensures
            final(self).round_id == old(self).round_id,
            final(self).feed_id == old(self).feed_id,
            final(self).reports == old(self).reports,
            final(self).max_age_secs == old(self).max_age_secs,
            !(old(self).state is Open) ==> (r matches Err(OracleError::RoundNotOpen(id)) && id == old(self).round_id)
                && final(self).state == old(self).state,
            old(self).state is Open ==> r == aggregate_spec(*aggregator, old(self).reports@, now),
            old(self).state is Open ==> match r {
                Ok(res) => final(self).state == (RoundState::Closed { result: res }),
                Err(_) => final(self).state is Failed,
            },
    {
        match self.state {
            RoundState::Open { .. } => {},
            _ => return Err(OracleError::RoundNotOpen(self.round_id)),
        }
        match aggregator.aggregate(self.reports.as_slice(), now) {
            Ok(result) => {
                self.state = RoundState::Closed { result };
                Ok(result)
            },
            Err(e) => {
                self.state = RoundState::Failed { reason: e.clone() };
                Err(e)
            },
        }
    }

    /// The aggregated price of a closed round.
    pub fn price(&self) -> (r: Option<Price>)
        ensures
            match self.state {
                RoundState::Closed { result } => r == Some(result.price),
                _ => r is None,
            },
    {
        match &self.state {
            RoundState::Closed { result } => Some(result.price),
            _ => None,
        }
    }

    /// Whether the round has closed or failed.
    pub fn is_done(&self) -> (r: bool)
        ensures
            r == !(self.state is Open),
    {
        match self.state {
            RoundState::Open { .. } => false,
            _ => true,
        }
    }
}

/// The rounds of every feed, the aggregator and the reporter whitelist.
pub struct RoundManager {
    rounds: Vec<(FeedId, Vec<OracleRound>)>,
    aggregator: OracleAggregator,
    whitelist: Vec<[u8; 20]>,
}

/// The latest closed round among the first `k` rounds: its number, price
/// and aggregation time.
pub open spec fn latest_closed(rs: Seq<OracleRound>, k: int) -> Option<(RoundId, Price, u64)>
    decreases k,
{
    if k <= 0 {
        None
    } else {
        match rs[k - 1].state {
            RoundState::Closed { result } => Some((rs[k - 1].round_id, result.price, result.timestamp)),
            _ => latest_closed(rs, k - 1),
        }
    }
}

impl RoundManager {
    /// The feeds with their rounds, in order of first use.
    pub closed spec fn spec_entries(&self) -> Seq<(FeedId, Vec<OracleRound>)> {
        self.rounds@
    }

    /// The aggregation settings.
    pub closed spec fn spec_aggregator(&self) -> OracleAggregator {
        self.aggregator
    }

    /// The whitelisted reporters.
    pub closed spec fn spec_whitelist(&self) -> Seq<[u8; 20]> {
        self.whitelist@
    }

    /// Each feed occurs once.
    pub open spec fn wf(&self) -> bool {
        forall|i: int, j: int| 0 <= i < j < self.spec_entries().len()
            ==> #[trigger] self.spec_entries()[i].0.0@ != #[trigger] self.spec_entries()[j].0.0@
    }

    /// The rounds of `feed`, oldest first, if it has had one.
    pub open spec fn rounds_of(&self, feed: Seq<char>) -> Option<Seq<OracleRound>> {
        if exists|i: int| 0 <= i < self.spec_entries().len() && self.spec_entries()[i].0.0@ == feed {
            Some(self.spec_entries()[choose|i: int| 0 <= i < self.spec_entries().len()
                && self.spec_entries()[i].0.0@ == feed].1@)
        } else {
            None
        }
    }

    /// No round yet.
    pub fn new(whitelist: Vec<[u8; 20]>, min_reporters: u32) -> (r: Self)
        ensures
            r.wf(),
            r.spec_entries().len() == 0,
            r.spec_whitelist() == whitelist@,
            r.spec_aggregator().min_reporters == min_reporters,
            r.spec_aggregator().iqr_multiplier == 3,
    {
        RoundManager { rounds: Vec::new(), aggregator: OracleAggregator::new(min_reporters), whitelist }
    }

    proof fn lemma_unique(m: Self, i: int, f: Seq<char>)
        requires
            m.wf(),
            0 <= i < m.spec_entries().len(),
            m.spec_entries()[i].0.0@ == f,
        ensures
            m.rounds_of(f) == Some(m.spec_entries()[i].1@),
    {
        let k = choose|k: int| 0 <= k < m.spec_entries().len() && m.spec_entries()[k].0.0@ == f;
        if k != i {
            if k < i {
                assert(m.spec_entries()[k].0.0@ != m.spec_entries()[i].0.0@);
            } else {
                assert(m.spec_entries()[i].0.0@ != m.spec_entries()[k].0.0@);
            }
        }
    }

    proof fn lemma_others(m0: Self, m1: Self, i: int)
        requires
            m0.wf(),
            m1.wf(),
            0 <= i <= m0.spec_entries().len(),
            m1.spec_entries().len() >= m0.spec_entries().len(),
            m1.spec_entries().len() <= m0.spec_entries().len() + 1,
            forall|k: int| 0 <= k < m0.spec_entries().len() && k != i ==> m1.spec_entries()[k] == m0.spec_entries()[k],
            i < m0.spec_entries().len() ==> m1.spec_entries().len() == m0.spec_entries().len()
                && m1.spec_entries()[i].0.0@ == m0.spec_entries()[i].0.0@,
            i == m0.spec_entries().len() ==> m1.spec_entries().len() == m0.spec_entries().len() + 1,
        ensures
            forall|f: Seq<char>| f != m1.spec_entries()[i].0.0@ ==> #[trigger] m1.rounds_of(f) == m0.rounds_of(f),
            m1.rounds_of(m1.spec_entries()[i].0.0@) == Some(m1.spec_entries()[i].1@),
    {
        let key = m1.spec_entries()[i].0.0@;
        Self::lemma_unique(m1, i, key);
        assert forall|f: Seq<char>| f != key implies #[trigger] m1.rounds_of(f) == m0.rounds_of(f) by {
            if m0.rounds_of(f) is Some {
                let k = choose|k: int| 0 <= k < m0.spec_entries().len() && m0.spec_entries()[k].0.0@ == f;
                Self::lemma_unique(m0, k, f);
                if k == i {
                    assert(m0.spec_entries()[i].0.0@ == key);
                }
                Self::lemma_unique(m1, k, f);
            } else if m1.rounds_of(f) is Some {
                let k = choose|k: int| 0 <= k < m1.spec_entries().len() && m1.spec_entries()[k].0.0@ == f;
                if k != i {
                    assert(m0.spec_entries()[k].0.0@ == f);
                }
            }
        }
    }

    fn find(&self, feed_id: &FeedId) -> (r: Option<usize>)
        requires
            self.wf(),
        ensures
            match r {
                Some(i) => i < self.spec_entries().len() && self.spec_entries()[i as int].0.0@ == feed_id.0@
                    && self.rounds_of(feed_id.0@) == Some(self.spec_entries()[i as int].1@),
                None => self.rounds_of(feed_id.0@) is None,
            },
    {
        let mut i: usize = 0;
        while i < self.rounds.len()
            invariant
                self.wf(),
                0 <= i <= self.rounds@.len(),
                forall|k: int| 0 <= k < i ==> #[trigger] self.rounds@[k].0.0@ != feed_id.0@,
            decreases self.rounds@.len() - i,
        {
            if self.rounds[i].0 == *feed_id {
                proof {
                    Self::lemma_unique(*self, i as int, feed_id.0@);
                }
                return Some(i);
            }
            i += 1;
        }
        None
    }

    /// Opens the next round of `feed_id` (numbered one past its count of
    /// rounds, with a 300-second freshness window) and returns its number.
    pub fn new_round(&mut self, feed_id: FeedId, now: u64) -> (r: RoundId)
        requires
            old(self).wf(),
            old(self).rounds_of(feed_id.0@) matches Some(rs) ==> rs.len() < u64::MAX,
        ensures
            final(self).wf(),
            final(self).spec_aggregator() == old(self).spec_aggregator(),
            final(self).spec_whitelist() == old(self).spec_whitelist(),
            ({
                let before = match old(self).rounds_of(feed_id.0@) { Some(rs) => rs, None => Seq::empty() };
                &&& r == before.len() + 1
                &&& final(self).rounds_of(feed_id.0@) matches Some(rs) && rs.len() == before.len() + 1
                    && rs.drop_last() == before && rs.last().round_id == r && rs.last().feed_id == feed_id
                    && rs.last().state == (RoundState::Open { opened_at: now }) && rs.last().reports@.len() == 0
                    && rs.last().max_age_secs == ROUND_MAX_AGE_SECS
            }),
            forall|f: Seq<char>| f != feed_id.0@ ==> #[trigger] final(self).rounds_of(f) == old(self).rounds_of(f),
    {
        let ghost key = feed_id.0@;
        match self.find(&feed_id) {
            Some(i) => {
                let (fid, mut rs) = self.rounds.remove(i);
                let round_id = rs.len() as u64 + 1;
                rs.push(OracleRound::open(round_id, feed_id, now, ROUND_MAX_AGE_SECS));
                self.rounds.insert(i, (fid, rs));
                proof {
                    assert(self.spec_entries() =~= old(self).spec_entries().update(i as int, self.spec_entries()[i as int]));
                    assert forall|a: int, c: int| 0 <= a < c < self.spec_entries().len() implies
                        #[trigger] self.spec_entries()[a].0.0@ != #[trigger] self.spec_entries()[c].0.0@ by {
                        assert(old(self).spec_entries()[a].0.0@ != old(self).spec_entries()[c].0.0@);
                    }
                    Self::lemma_others(*old(self), *self, i as int);
                    assert(rs@.drop_last() =~= old(self).spec_entries()[i as int].1@);
                }
                round_id
            },
            None => {
                let mut rs: Vec<OracleRound> = Vec::new();
                let fid = FeedId(feed_id.0.clone());
                rs.push(OracleRound::open(1, feed_id, now, ROUND_MAX_AGE_SECS));
                let ghost n = old(self).spec_entries().len() as int;
                self.rounds.push((fid, rs));
                proof {
                    assert(fid.0@ == key);
                    assert forall|a: int, c: int| 0 <= a < c < self.spec_entries().len() implies
                        #[trigger] self.spec_entries()[a].0.0@ != #[trigger] self.spec_entries()[c].0.0@ by {
                        if c == n {
                            assert(old(self).spec_entries()[a].0.0@ != key);
                        } else {
                            assert(old(self).spec_entries()[a].0.0@ != old(self).spec_entries()[c].0.0@);
                        }
                    }
                    Self::lemma_others(*old(self), *self, n);
                    assert(rs@.drop_last() =~= Seq::<OracleRound>::empty());
                }
                1
            },
        }
    }

    /// Adds a report to the latest round of `feed_id`.
    pub fn submit(&mut self, feed_id: &FeedId, report: PriceReport, now: u64) -> (r: Result<(), OracleError>)
        requires
            old(self).wf(),
        ensures
            final(self).wf(),
            final(self).spec_aggregator() == old(self).spec_aggregator(),
            final(self).spec_whitelist() == old(self).spec_whitelist(),
            match old(self).rounds_of(feed_id.0@) {
                None => (r matches Err(OracleError::UnknownFeed(_))) && final(self).rounds_of(feed_id.0@) is None,
                Some(rs) => if rs.len() == 0 {
                    (r matches Err(OracleError::NoOpenRound)) && final(self).rounds_of(feed_id.0@) == old(self).rounds_of(feed_id.0@)
                } else {
                let last = rs.last();
                &&& final(self).rounds_of(feed_id.0@) matches Some(rs1) && rs1.drop_last() == rs.drop_last()
                    && rs1.len() == rs.len()
                &&& r is Ok <==> (last.state is Open && old(self).spec_whitelist().contains(report.reporter)
                    && !(exists|i: int| 0 <= i < last.reports@.len() && (#[trigger] last.reports@[i]).reporter == report.reporter)
                    && report_signed(report)
                    && !(now >= report.timestamp && now - report.timestamp > last.max_age_secs))
                &&& r is Ok ==> (final(self).rounds_of(feed_id.0@)->0.last().reports@ == last.reports@.push(report))
                &&& r is Err ==> (final(self).rounds_of(feed_id.0@)->0.last().reports@ == last.reports@)
                &&& final(self).rounds_of(feed_id.0@)->0.last().state == last.state
                },
            },
            forall|f: Seq<char>| f != feed_id.0@ ==> #[trigger] final(self).rounds_of(f) == old(self).rounds_of(f),
    {
        match self.find(feed_id) {
            None => Err(OracleError::UnknownFeed(feed_id.clone())),
            Some(i) => {
                let (fid, mut rs) = self.rounds.remove(i);
                let n = rs.len();
                if n == 0 {
                    self.rounds.insert(i, (fid, rs));
                    proof {
                        assert(self.spec_entries() =~= old(self).spec_entries());
                    }
                    return Err(OracleError::NoOpenRound);
                }
                let mut round = rs.remove(n - 1);
                let r = round.add_report(report, now, self.whitelist.as_slice());
                rs.push(round);
                self.rounds.insert(i, (fid, rs));
                proof {
                    assert(self.spec_entries() =~= old(self).spec_entries().update(i as int, self.spec_entries()[i as int]));
                    assert forall|a: int, c: int| 0 <= a < c < self.spec_entries().len() implies
                        #[trigger] self.spec_entries()[a].0.0@ != #[trigger] self.spec_entries()[c].0.0@ by {
                        assert(old(self).spec_entries()[a].0.0@ != old(self).spec_entries()[c].0.0@);
                    }
                    Self::lemma_others(*old(self), *self, i as int);
                    assert(rs@.drop_last() =~= old(self).spec_entries()[i as int].1@.drop_last());
                }
                r
            },
        }
    }

    /// Closes the latest round of `feed_id` with the manager's aggregator
    /// and returns its price.
    pub fn close_round(&mut self, feed_id: &FeedId, now: u64) -> (r: Result<Price, OracleError>)
        requires
            old(self).wf(),
            match old(self).rounds_of(feed_id.0@) {
                Some(rs) => rs.len() > 0 && rs.last().reports@.len() > 0 && old(self).spec_aggregator().min_reporters == 0
                    ==> counted_prices(rs.last().reports@, rs.last().reports@.len() as int, now).len() > 0,
                None => true,
            },
        ensures
            final(self).wf(),
            final(self).spec_aggregator() == old(self).spec_aggregator(),
            final(self).spec_whitelist() == old(self).spec_whitelist(),
            match old(self).rounds_of(feed_id.0@) {
                None => (r matches Err(OracleError::UnknownFeed(_))) && final(self).rounds_of(feed_id.0@) is None,
                Some(rs) => if rs.len() == 0 {
                    (r matches Err(OracleError::NoOpenRound)) && final(self).rounds_of(feed_id.0@) == old(self).rounds_of(feed_id.0@)
                } else {
                let last = rs.last();
                &&& final(self).rounds_of(feed_id.0@) matches Some(rs1) && rs1.drop_last() == rs.drop_last()
                    && rs1.len() == rs.len()
                &&& !(last.state is Open) ==> (r matches Err(OracleError::RoundNotOpen(id)) && id == last.round_id)
                &&& last.state is Open ==> match aggregate_spec(old(self).spec_aggregator(), last.reports@, now) {
                    Ok(res) => r == Ok::<Price, OracleError>(res.price)
                        && final(self).rounds_of(feed_id.0@)->0.last().state == (RoundState::Closed { result: res }),
                    Err(e) => r == Err::<Price, OracleError>(e) && final(self).rounds_of(feed_id.0@)->0.last().state is Failed,
                }
                },
            },
            forall|f: Seq<char>| f != feed_id.0@ ==> #[trigger] final(self).rounds_of(f) == old(self).rounds_of(f),
    {
        match self.find(feed_id) {
            None => Err(OracleError::UnknownFeed(feed_id.clone())),
            Some(i) => {
                let (fid, mut rs) = self.rounds.remove(i);
                let n = rs.len();
                if n == 0 {
                    self.rounds.insert(i, (fid, rs));
                    proof {
                        assert(self.spec_entries() =~= old(self).spec_entries());
                    }
                    return Err(OracleError::NoOpenRound);
                }
                let mut round = rs.remove(n - 1);
                let res = round.close(&self.aggregator, now, 3);
                rs.push(round);
                self.rounds.insert(i, (fid, rs));
                proof {
                    assert(self.spec_entries() =~= old(self).spec_entries().update(i as int, self.spec_entries()[i as int]));
                    assert forall|a: int, c: int| 0 <= a < c < self.spec_entries().len() implies
                        #[trigger] self.spec_entries()[a].0.0@ != #[trigger] self.spec_entries()[c].0.0@ by {
                        assert(old(self).spec_entries()[a].0.0@ != old(self).spec_entries()[c].0.0@);
                    }
                    Self::lemma_others(*old(self), *self, i as int);
                    assert(rs@.drop_last() =~= old(self).spec_entries()[i as int].1@.drop_last());
                }
                match res {
                    Ok(result) => Ok(result.price),
                    Err(e) => Err(e),
                }
            },
        }
    }

    /// The latest closed round of `feed_id`: number, price and time.
    pub fn latest_round_data(&self, feed_id: &FeedId) -> (r: Option<(RoundId, Price, u64)>)
        requires
            self.wf(),
        ensures
            r == match self.rounds_of(feed_id.0@) {
                Some(rs) => latest_closed(rs, rs.len() as int),
                None => None,
            },
    {
        match self.find(feed_id) {
            None => None,
            Some(i) => {
                let rs = &self.rounds[i].1;
                let mut k = rs.len();
                while k > 0
                    invariant
                        0 <= k <= rs@.len(),
                        self.rounds_of(feed_id.0@) == Some(rs@),
                        latest_closed(rs@, rs@.len() as int) == latest_closed(rs@, k as int),
                    decreases k,
                {
                    match &rs[k - 1].state {
                        RoundState::Closed { result } => return Some((rs[k - 1].round_id, result.price, result.timestamp)),
                        _ => {},
                    }
                    k -= 1;
                }
                None
            },
        }
    }
}

} // verus!
