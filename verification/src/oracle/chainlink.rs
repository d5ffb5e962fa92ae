//! A Chainlink-style aggregator: registered oracles submit answers to
//! numbered rounds; once enough answers are in, answers further than 10%
//! from the median are dropped, the median of the rest becomes the round's
//! answer, and every oracle of the round is credited a payment.

use vstd::prelude::*;
use crate::common::{i128_le, sort_i128, Address};
use crate::table::{Table, TableKey};
use crate::text::str_eq;

verus! {

/// Answers needed before a round aggregates.
pub const MIN_ORACLE_COUNT: usize = 3;
/// Most oracles of one feed.
pub const MAX_ORACLES: usize = 31;
/// Largest distance from the median kept, in basis points of the median.
pub const MAX_DEVIATION_BPS: u64 = 1000;
/// Seconds a round may stay open.
pub const ROUND_TIMEOUT_SECS: u64 = 120;
/// Payment per answer of an aggregated round (0.01 ZBX in wei).
pub const ORACLE_PAYMENT: u64 = 10_000_000_000_000_000;

/// An aggregated round.
#[derive(Debug, Clone, Copy)]
pub struct RoundData {
    pub round_id: u64,
    pub answer: i128,
    /// Earliest answer time of the round.
    pub started_at: u64,
    /// When the round aggregated.
    pub updated_at: u64,
    pub answered_in_round: u64,
}

/// One oracle's answer to a round.
#[derive(Debug, Clone, Copy)]
pub struct OracleSubmission {
    pub oracle: Address,
    pub answer: i128,
    pub timestamp: u64,
}

/// Why a feed operation failed.
#[derive(Debug)]
pub enum OracleError {
    FeedNotFound(String),
    NotOracle(Address),
    AlreadyAdded(Address),
    TooManyOracles,
    AlreadySubmitted { oracle: Address, round: u64 },
    RoundNotFound(u64),
    InsufficientValidAnswers { valid: usize, min: usize },
    NoData,
}

/// `|a - b|`.
pub open spec fn dist(a: i128, b: i128) -> int {
    if a >= b { a - b } else { b - a }
}

/// `|x|`.
pub open spec fn magnitude(x: i128) -> int {
    if x >= 0 { x as int } else { -x }
}

/// Whether an answer is kept next to the median `m`: its distance is at
/// most `MAX_DEVIATION_BPS` of `|m|` (rounded down), and every answer is
/// kept when the median is zero.
pub open spec fn kept(a: i128, m: i128) -> bool {
    m == 0 || dist(a, m) * 10_000 / magnitude(m) <= MAX_DEVIATION_BPS
}

/// The kept answers among the first `k` of `s`, in order.
pub open spec fn kept_prefix(s: Seq<i128>, k: int, m: i128) -> Seq<i128>
    decreases k,
{
    if k <= 0 {
        Seq::empty()
    } else if kept(s[k - 1], m) {
        kept_prefix(s, k - 1, m).push(s[k - 1])
    } else {
        kept_prefix(s, k - 1, m)
    }
}

/// The answers of a round's submissions, in order.
pub open spec fn answers_of(subs: Seq<OracleSubmission>) -> Seq<i128> {
    subs.map_values(|s: OracleSubmission| s.answer)
}

/// The sorted answers and their median (the upper middle one).
pub open spec fn sorted_answers(subs: Seq<OracleSubmission>) -> Seq<i128> {
    answers_of(subs).sort_by(i128_le())
}

/// The median of sorted answers.
pub open spec fn upper_median(s: Seq<i128>) -> i128 {
    s[(s.len() / 2) as int]
}

/// The earliest timestamp among the first `k` submissions.
pub open spec fn earliest(subs: Seq<OracleSubmission>, k: int) -> u64
    decreases k,
{
    if k <= 1 {
        subs[0].timestamp
    } else if subs[k - 1].timestamp < earliest(subs, k - 1) {
        subs[k - 1].timestamp
    } else {
        earliest(subs, k - 1)
    }
}

/// The payment owed to `o`, or zero.
pub open spec fn owed(m: Map<Address, u64>, o: Address) -> u64 {
    if m.dom().contains(o) { m[o] } else { 0 }
}

/// The submissions of `round` so far.
pub open spec fn pending_of(f: FeedState, round: u64) -> Seq<OracleSubmission> {
    if f.pending_submissions.view().dom().contains(round) { f.pending_submissions.view()[round]@ } else { Seq::empty() }
}

/// Whether `o` answered among `subs`.
pub open spec fn answered(subs: Seq<OracleSubmission>, o: Address) -> bool {
    exists|i: int| 0 <= i < subs.len() && (#[trigger] subs[i]).oracle == o
}

/// The arithmetic of aggregating `subs` stays in range: every distance to
/// the median fits after scaling by 10000, and no oracle's owed payment
/// overflows.
pub open spec fn aggregation_fits(f: FeedState, subs: Seq<OracleSubmission>) -> bool {
    let s = sorted_answers(subs);
    &&& forall|i: int| 0 <= i < s.len() ==> dist(#[trigger] s[i], upper_median(s)) * 10_000 <= u128::MAX
    &&& forall|i: int| 0 <= i < subs.len()
        ==> owed(f.payments_owed.view(), (#[trigger] subs[i]).oracle) + ORACLE_PAYMENT <= u64::MAX
}

/// A feed: its oracles, pending rounds, latest answer and payments.
#[derive(Debug)]
pub struct FeedState {
    pub description: String,
    pub decimals: u8,
    pub version: u32,
    /// Oracles in order of registration.
    pub oracles: Vec<Address>,
    pub min_submissions: usize,
    pub max_submissions: usize,
    /// The last aggregated round.
    pub current_round: u64,
    pub latest_round_data: Option<RoundData>,
    /// Round → answers so far.
    pub pending_submissions: Table<u64, Vec<OracleSubmission>>,
    /// Oracle → its position in `oracles`.
    pub oracle_index: Table<Address, usize>,
    /// Oracle → payment owed.
    pub payments_owed: Table<Address, u64>,
}

impl FeedState {
    /// The tables are well formed, an oracle answers a round at most once,
    /// and the index lists exactly the registered oracles.
    pub open spec fn wf(&self) -> bool {
        &&& self.pending_submissions.wf()
        &&& self.oracle_index.wf()
        &&& self.payments_owed.wf()
        &&& forall|r: u64| #[trigger] self.pending_submissions.view().dom().contains(r) ==> {
            let s = self.pending_submissions.view()[r]@;
            forall|i: int, j: int| 0 <= i < j < s.len() ==> (#[trigger] s[i]).oracle != (#[trigger] s[j]).oracle
        }
        &&& forall|o: Address| #[trigger] self.oracle_index.view().dom().contains(o)
            <==> exists|i: int| 0 <= i < self.oracles@.len() && self.oracles@[i] == o
        &&& forall|i: int| 0 <= i < self.oracles@.len() ==> self.oracle_index.view().dom().contains(#[trigger] self.oracles@[i])
    }

    /// A feed with no oracle, needing three answers per round.
    pub fn new(description: String, decimals: u8) -> (r: Self)
        ensures
            r.wf(),
            r.description == description,
            r.decimals == decimals,
            r.version == 4,
            r.oracles@.len() == 0,
            r.min_submissions == MIN_ORACLE_COUNT,
            r.max_submissions == MAX_ORACLES,
            r.current_round == 0,
            r.latest_round_data is None,
            r.pending_submissions.view() == Map::<u64, Vec<OracleSubmission>>::empty(),
            r.payments_owed.view() == Map::<Address, u64>::empty(),
    {
        FeedState {
            description,
            decimals,
            version: 4,
            oracles: Vec::new(),
            min_submissions: MIN_ORACLE_COUNT,
            max_submissions: MAX_ORACLES,
            current_round: 0,
            latest_round_data: None,
            pending_submissions: Table::new(),
            oracle_index: Table::new(),
            payments_owed: Table::new(),
        }
    }

    /// Registers an oracle (at most `MAX_ORACLES`, each once).
    pub fn add_oracle(&mut self, oracle: Address) -> (r: Result<(), OracleError>)
        requires
            old(self).wf(),
        ensures
            final(self).wf(),
            old(self).oracles@.len() >= MAX_ORACLES ==> (r matches Err(OracleError::TooManyOracles))
                && final(self).oracles@ == old(self).oracles@,
            old(self).oracles@.len() < MAX_ORACLES && old(self).oracles@.contains(oracle)
                ==> (r matches Err(OracleError::AlreadyAdded(o)) && o == oracle) && final(self).oracles@ == old(self).oracles@,
            old(self).oracles@.len() < MAX_ORACLES && !old(self).oracles@.contains(oracle)
                ==> (r is Ok && final(self).oracles@ == old(self).oracles@.push(oracle)),
            final(self).pending_submissions == old(self).pending_submissions,
            final(self).payments_owed == old(self).payments_owed,
            final(self).latest_round_data == old(self).latest_round_data,
            final(self).current_round == old(self).current_round,
            final(self).min_submissions == old(self).min_submissions,
            r is Err ==> *final(self) == *old(self),
            r is Ok ==> final(self).oracle_index.view()
                == old(self).oracle_index.view().insert(oracle, old(self).oracles@.len() as usize),
            final(self).description == old(self).description,
            final(self).decimals == old(self).decimals,
            final(self).version == old(self).version,
            final(self).max_submissions == old(self).max_submissions,
    {
        if self.oracles.len() >= MAX_ORACLES {
            return Err(OracleError::TooManyOracles);
        }
        if self.oracle_index.contains(&oracle) {
            proof {
                let i = choose|i: int| 0 <= i < self.oracles@.len() && self.oracles@[i] == oracle;
                assert(self.oracles@.contains(oracle));
            }
            return Err(OracleError::AlreadyAdded(oracle));
        }
        let idx = self.oracles.len();
        let ghost o0 = self.oracles@;
        self.oracles.push(oracle);
        self.oracle_index.set(oracle, idx);
        proof {
            assert forall|o: Address| #[trigger] self.oracle_index.view().dom().contains(o)
                <==> exists|i: int| 0 <= i < self.oracles@.len() && self.oracles@[i] == o by {
                if o != oracle && old(self).oracle_index.view().dom().contains(o) {
                    let i = choose|i: int| 0 <= i < o0.len() && o0[i] == o;
                    assert(self.oracles@[i] == o);
                }
                if exists|i: int| 0 <= i < self.oracles@.len() && self.oracles@[i] == o {
                    let i = choose|i: int| 0 <= i < self.oracles@.len() && self.oracles@[i] == o;
                    if i < o0.len() {
                        assert(o0[i] == o);
                    }
                }
                if o == oracle {
                    assert(self.oracles@[o0.len() as int] == o);
                }
            }
            assert forall|i: int| 0 <= i < self.oracles@.len() implies self.oracle_index.view().dom().contains(#[trigger] self.oracles@[i]) by {
                if i < o0.len() {
                    assert(self.oracles@[i] == o0[i]);
                }
            }
            assert(!o0.contains(oracle));
        }
        Ok(())
    }

    /// Records `oracle`'s answer to `round_id`; when the round then has
    /// `min_submissions` answers it aggregates (see `submit_post`).
    pub fn submit(&mut self, oracle: Address, round_id: u64, answer: i128, timestamp: u64)
        -> (r: Result<Option<RoundData>, OracleError>)
        requires
            old(self).wf(),
            ({
                let s2 = pending_of(*old(self), round_id).push(OracleSubmission { oracle, answer, timestamp });
                old(self).oracle_index.view().dom().contains(oracle) && !answered(pending_of(*old(self), round_id), oracle)
                    && s2.len() >= old(self).min_submissions ==> aggregation_fits(*old(self), s2)
            }),
        ensures
            final(self).wf(),
            submit_post(*old(self), *final(self), oracle, round_id, answer, timestamp, r),
    {
        if !self.oracle_index.contains(&oracle) {
            return Err(OracleError::NotOracle(oracle));
        }
        let ghost f0 = *self;
        let mut subs = match self.pending_submissions.take(&round_id) {
            Some(s) => s,
            None => Vec::new(),
        };
        if has_answered(&subs, &oracle) {
            self.pending_submissions.set(round_id, subs);
            proof {
                assert(self.pending_submissions.view() =~= f0.pending_submissions.view());
            }
            return Err(OracleError::AlreadySubmitted { oracle, round: round_id });
        }
        let ghost s1 = subs@;
        subs.push(OracleSubmission { oracle, answer, timestamp });
        proof {
            assert(s1 == pending_of(f0, round_id));
            assert(subs@ == pending_of(f0, round_id).push(OracleSubmission { oracle, answer, timestamp }));
            assert forall|i: int, j: int| 0 <= i < j < subs@.len() implies (#[trigger] subs@[i]).oracle != (#[trigger] subs@[j]).oracle by {
                if j == s1.len() {
                    assert(subs@[i] == s1[i]);
                    if s1[i].oracle == oracle {
                        assert(answered(s1, oracle));
                    }
                } else {
                    assert(subs@[i] == s1[i] && subs@[j] == s1[j]);
                    if f0.pending_submissions.view().dom().contains(round_id) {
                        assert(s1 == f0.pending_submissions.view()[round_id]@);
                    }
                }
            }
        }
        if subs.len() < self.min_submissions {
            self.pending_submissions.set(round_id, subs);
            proof {
                assert(self.pending_submissions.view() =~= f0.pending_submissions.view().insert(round_id,
                    self.pending_submissions.view()[round_id]));
                assert forall|r: u64| #[trigger] self.pending_submissions.view().dom().contains(r) implies ({
                    let s = self.pending_submissions.view()[r]@;
                    forall|i: int, j: int| 0 <= i < j < s.len() ==> (#[trigger] s[i]).oracle != (#[trigger] s[j]).oracle
                }) by {
                    if r != round_id {
                        assert(f0.pending_submissions.view().dom().contains(r));
                    } else {
                        assert(self.pending_submissions.view()[r]@ == subs@);
                    }
                }
                assert(self.pending_submissions.wf());
                assert(self.oracle_index == f0.oracle_index);
                assert(self.oracles == f0.oracles);
            }
            return Ok(None);
        }
        let res = self.aggregate_round(subs, round_id, timestamp);
        match res {
            Ok(rd) => Ok(Some(rd)),
            Err(e) => Err(e),
        }
    }

    /// Aggregates the answers `subs` of `round_id` (already taken out of
    /// the pending rounds).
    fn aggregate_round(&mut self, subs: Vec<OracleSubmission>, round_id: u64, timestamp: u64)
        -> (r: Result<RoundData, OracleError>)
        requires
            old(self).wf(),
            subs@.len() > 0,
            aggregation_fits(*old(self), subs@),
            forall|i: int, j: int| 0 <= i < j < subs@.len() ==> (#[trigger] subs@[i]).oracle != (#[trigger] subs@[j]).oracle,
        ensures
            final(self).wf(),
            aggregated(*old(self), *final(self), subs@, round_id, timestamp, r),
    {
        let answers = collect_answers(&subs);
        let sorted = sort_i128(&answers);
        let n = sorted.len();
        let median = sorted[n / 2];
        proof {
            assert(sorted@ == sorted_answers(subs@));
            assert(median == upper_median(sorted@));
        }
        let valid = keep_near_median(&sorted, median);
        proof {
            let k = sorted@.len() as int;
            assert(kept(sorted@[k / 2], median));
            lemma_kept_nonempty(sorted@, k, median, k / 2);
        }
        if valid.len() < self.min_submissions {
            return Err(OracleError::InsufficientValidAnswers { valid: valid.len(), min: self.min_submissions });
        }
        let final_answer = valid[valid.len() / 2];
        let started_at = earliest_time(&subs);
        let round_data = RoundData {
            round_id,
            answer: final_answer,
            started_at,
            updated_at: timestamp,
            answered_in_round: round_id,
        };
        let ghost f0 = *self;
        pay_oracles(&mut self.payments_owed, &subs);
        self.latest_round_data = Some(round_data);
        self.current_round = round_id;
        proof {
            assert(self.pending_submissions == f0.pending_submissions);
            assert(self.oracle_index == f0.oracle_index);
            assert(self.oracles == f0.oracles);
        }
        Ok(round_data)
    }

    /// The latest aggregated round; `NoData` before the first.
    pub fn latest_round_data(&self) -> (r: Result<RoundData, OracleError>)
        ensures
            match self.latest_round_data {
                Some(rd) => (r matches Ok(x) && x == rd),
                None => r matches Err(OracleError::NoData),
            },
    {
        match self.latest_round_data {
            Some(rd) => Ok(rd),
            None => Err(OracleError::NoData),
        }
    }

    /// Round `round_id`, if it is the latest aggregated one.
    pub fn get_round_data(&self, round_id: u64) -> (r: Result<RoundData, OracleError>)
        ensures
            match self.latest_round_data {
                Some(rd) => if rd.round_id == round_id {
                    (r matches Ok(x) && x == rd)
                } else {
                    (r matches Err(OracleError::RoundNotFound(n)) && n == round_id)
                },
                None => (r matches Err(OracleError::RoundNotFound(n)) && n == round_id),
            },
    {
        match self.latest_round_data {
            Some(rd) => {
                if rd.round_id == round_id {
                    return Ok(rd);
                }
            },
            None => {},
        }
        Err(OracleError::RoundNotFound(round_id))
    }
}

/// The outcome of aggregating the answers `subs` of `round` on `s`,
/// leaving `t` and answering `r`: the round leaves the pending rounds;
/// with too few kept answers it fails and nothing else changes; otherwise
/// the median of the kept answers is the round's answer, the round becomes
/// the latest, and each oracle of the round is credited `ORACLE_PAYMENT`.
pub open spec fn aggregated(s: FeedState, t: FeedState, subs: Seq<OracleSubmission>, round: u64, now: u64,
    r: Result<RoundData, OracleError>) -> bool {
    let srt = sorted_answers(subs);
    let v = kept_prefix(srt, srt.len() as int, upper_median(srt));
    &&& t.pending_submissions == s.pending_submissions
    &&& t.oracles == s.oracles
    &&& t.oracle_index == s.oracle_index
    &&& t.min_submissions == s.min_submissions
    &&& t.description == s.description
    &&& if v.len() < s.min_submissions {
        &&& r matches Err(OracleError::InsufficientValidAnswers { valid, min }) && valid == v.len() && min == s.min_submissions
        &&& t.latest_round_data == s.latest_round_data
        &&& t.current_round == s.current_round
        &&& t.payments_owed == s.payments_owed
    } else {
        let rd = RoundData {
            round_id: round,
            answer: v[(v.len() / 2) as int],
            started_at: earliest(subs, subs.len() as int),
            updated_at: now,
            answered_in_round: round,
        };
        &&& r matches Ok(x) && x == rd
        &&& t.latest_round_data == Some(rd)
        &&& t.current_round == round
        &&& forall|o: Address| #[trigger] owed(t.payments_owed.view(), o) == owed(s.payments_owed.view(), o)
            + (if answered(subs, o) { ORACLE_PAYMENT as int } else { 0int })
    }
}

/// The outcome of `FeedState::submit`.
pub open spec fn submit_post(s: FeedState, t: FeedState, oracle: Address, round: u64, answer: i128, now: u64,
    r: Result<Option<RoundData>, OracleError>) -> bool {
    let subs = pending_of(s, round);
    let s2 = subs.push(OracleSubmission { oracle, answer, timestamp: now });
    if !s.oracle_index.view().dom().contains(oracle) {
        (r matches Err(OracleError::NotOracle(o)) && o == oracle) && t == s
    } else if answered(subs, oracle) {
        (r matches Err(OracleError::AlreadySubmitted { oracle: o, round: n }) && o == oracle && n == round)
            && t.pending_submissions.view() == s.pending_submissions.view()
            && t.latest_round_data == s.latest_round_data && t.current_round == s.current_round
            && t.payments_owed == s.payments_owed && t.oracles == s.oracles
    } else if s2.len() < s.min_submissions {
        (r matches Ok(None)) && t.pending_submissions.view().dom() == s.pending_submissions.view().dom().insert(round)
            && t.pending_submissions.view()[round]@ == s2
            && (forall|n: u64| n != round && s.pending_submissions.view().dom().contains(n)
                ==> #[trigger] t.pending_submissions.view()[n] == s.pending_submissions.view()[n])
            && t.latest_round_data == s.latest_round_data && t.current_round == s.current_round
            && t.payments_owed == s.payments_owed && t.oracles == s.oracles
    } else {
        let shadow = FeedState { pending_submissions: t.pending_submissions, ..s };
        &&& t.pending_submissions.view() == s.pending_submissions.view().remove(round)
        &&& aggregated(shadow, t, s2, round, now, match r {
            Ok(Some(rd)) => Ok(rd),
            Ok(None) => Err(OracleError::NoData),
            Err(e) => Err(e),
        })
        &&& !(r matches Ok(None))
    }
}

/// A prefix holding a kept answer keeps at least one.
proof fn lemma_kept_nonempty(s: Seq<i128>, k: int, m: i128, j: int)
    requires
        0 <= j < k <= s.len(),
        kept(s[j], m),
    ensures
        kept_prefix(s, k, m).len() >= 1,
    decreases k,
{
    if j < k - 1 && !kept(s[k - 1], m) {
        lemma_kept_nonempty(s, k - 1, m, j);
    }
}

/// Every kept answer is one of the answers and lies near the median.
pub proof fn lemma_kept_prefix_sound(s: Seq<i128>, k: int, m: i128)
    requires
        0 <= k <= s.len(),
    ensures
        forall|i: int| 0 <= i < kept_prefix(s, k, m).len() ==> {
            let x = #[trigger] kept_prefix(s, k, m)[i];
            kept(x, m) && s.subrange(0, k).contains(x)
        },
    decreases k,
{
    if k > 0 {
        lemma_kept_prefix_sound(s, k - 1, m);
        let p = kept_prefix(s, k - 1, m);
        assert forall|i: int| 0 <= i < kept_prefix(s, k, m).len() implies {
            let x = #[trigger] kept_prefix(s, k, m)[i];
            kept(x, m) && s.subrange(0, k).contains(x)
        } by {
            let x = kept_prefix(s, k, m)[i];
            if i < p.len() {
                assert(x == p[i]);
                let w = choose|w: int| 0 <= w < k - 1 && #[trigger] s.subrange(0, k - 1)[w] == x;
                assert(s.subrange(0, k)[w] == x);
            } else {
                assert(x == s[k - 1]);
                assert(s.subrange(0, k)[k - 1] == x);
            }
        }
    }
}

/// An aggregated round answers one of the submitted answers, and that
/// answer is within `MAX_DEVIATION_BPS` of the median of all answers.
pub proof fn lemma_round_answer_near_median(s: FeedState, t: FeedState, subs: Seq<OracleSubmission>, round: u64,
    now: u64, rd: RoundData)
    requires
        subs.len() > 0,
        aggregated(s, t, subs, round, now, Ok(rd)),
    ensures
        answers_of(subs).contains(rd.answer),
        kept(rd.answer, upper_median(sorted_answers(subs))),
{
    let srt = sorted_answers(subs);
    let m = upper_median(srt);
    let v = kept_prefix(srt, srt.len() as int, m);
    let le = i128_le();
    assert(vstd::relations::total_ordering(le));
    answers_of(subs).lemma_sort_by_ensures(le);
    answers_of(subs).to_multiset_ensures();
    srt.to_multiset_ensures();
    assert(srt.len() == subs.len());
    lemma_kept_nonempty(srt, srt.len() as int, m, (srt.len() / 2) as int);
    lemma_kept_prefix_sound(srt, srt.len() as int, m);
    assert(srt.subrange(0, srt.len() as int) =~= srt);
    let x = v[(v.len() / 2) as int];
    assert(kept(x, m) && srt.contains(x));
}

/// Whether `oracle` answered among `subs`.
fn has_answered(subs: &Vec<OracleSubmission>, oracle: &Address) -> (r: bool)
    ensures
        r == answered(subs@, *oracle),
{
    let mut i: usize = 0;
    while i < subs.len()
        invariant
            0 <= i <= subs@.len(),
            forall|k: int| 0 <= k < i ==> (#[trigger] subs@[k]).oracle != *oracle,
        decreases subs@.len() - i,
    {
        if subs[i].oracle.same(oracle) {
            return true;
        }
        i += 1;
    }
    false
}

/// The answers of `subs`, in order.
fn collect_answers(subs: &Vec<OracleSubmission>) -> (r: Vec<i128>)
    ensures
        r@ == answers_of(subs@),
{
    let mut answers: Vec<i128> = Vec::new();
    let mut i: usize = 0;
    while i < subs.len()
        invariant
            0 <= i <= subs@.len(),
            answers@ == answers_of(subs@).subrange(0, i as int),
        decreases subs@.len() - i,
    {
        answers.push(subs[i].answer);
        i += 1;
        proof {
            assert(answers@ =~= answers_of(subs@).subrange(0, i as int));
        }
    }
    proof {
        assert(answers@ =~= answers_of(subs@));
    }
    answers
}

/// The answers of `sorted` kept next to `median`, in order.
fn keep_near_median(sorted: &Vec<i128>, median: i128) -> (r: Vec<i128>)
    requires
        forall|q: int| 0 <= q < sorted@.len() ==> dist(#[trigger] sorted@[q], median) * 10_000 <= u128::MAX,
    ensures
        r@ == kept_prefix(sorted@, sorted@.len() as int, median),
{
    let mag: u128 = if median >= 0 { median as u128 } else { ((-(median + 1)) as u128) + 1 };
    let mut valid: Vec<i128> = Vec::new();
    let mut k: usize = 0;
    while k < sorted.len()
        invariant
            mag == magnitude(median),
            0 <= k <= sorted@.len(),
            valid@ == kept_prefix(sorted@, k as int, median),
            forall|q: int| 0 <= q < sorted@.len() ==> dist(#[trigger] sorted@[q], median) * 10_000 <= u128::MAX,
        decreases sorted@.len() - k,
    {
        let a = sorted[k];
        let keep = if median == 0 {
            true
        } else {
            proof {
                assert(dist(sorted@[k as int], median) * 10_000 <= u128::MAX);
            }
            let dev: u128 = if a > median { (a - median) as u128 } else { (median - a) as u128 };
            dev * 10_000 / mag <= MAX_DEVIATION_BPS as u128
        };
        if keep {
            valid.push(a);
        }
        k += 1;
    }
    valid
}

/// The earliest timestamp of non-empty `subs`.
fn earliest_time(subs: &Vec<OracleSubmission>) -> (r: u64)
    requires
        subs@.len() > 0,
    ensures
        r == earliest(subs@, subs@.len() as int),
{
    let mut started_at = subs[0].timestamp;
    let mut j: usize = 1;
    while j < subs.len()
        invariant
            1 <= j <= subs@.len(),
            started_at == earliest(subs@, j as int),
        decreases subs@.len() - j,
    {
        if subs[j].timestamp < started_at {
            started_at = subs[j].timestamp;
        }
        j += 1;
    }
    started_at
}

/// Credits `ORACLE_PAYMENT` to each oracle of `subs` (each appears once).
fn pay_oracles(payments: &mut Table<Address, u64>, subs: &Vec<OracleSubmission>)
    requires
        old(payments).wf(),
        forall|i: int, j: int| 0 <= i < j < subs@.len() ==> (#[trigger] subs@[i]).oracle != (#[trigger] subs@[j]).oracle,
        forall|i: int| 0 <= i < subs@.len() ==> owed(old(payments).view(), (#[trigger] subs@[i]).oracle) + ORACLE_PAYMENT <= u64::MAX,
    ensures
        final(payments).wf(),
        forall|o: Address| #[trigger] owed(final(payments).view(), o) == owed(old(payments).view(), o)
            + (if answered(subs@, o) { ORACLE_PAYMENT as int } else { 0int }),
{
    let ghost p0 = payments.view();
    let mut q: usize = 0;
    while q < subs.len()
        invariant
            payments.wf(),
            0 <= q <= subs@.len(),
            p0 == old(payments).view(),
            forall|i: int, j: int| 0 <= i < j < subs@.len() ==> (#[trigger] subs@[i]).oracle != (#[trigger] subs@[j]).oracle,
            forall|i: int| 0 <= i < subs@.len() ==> owed(p0, (#[trigger] subs@[i]).oracle) + ORACLE_PAYMENT <= u64::MAX,
            forall|o: Address| #[trigger] owed(payments.view(), o) == owed(p0, o)
                + (if answered(subs@.subrange(0, q as int), o) { ORACLE_PAYMENT as int } else { 0int }),
        decreases subs@.len() - q,
    {
        let o = subs[q].oracle;
        let due = match payments.get(&o) {
            Some(v) => *v,
            None => 0,
        };
        proof {
            assert(!answered(subs@.subrange(0, q as int), o)) by {
                if answered(subs@.subrange(0, q as int), o) {
                    let w = choose|w: int| 0 <= w < q && (#[trigger] subs@.subrange(0, q as int)[w]).oracle == o;
                    assert(subs@[w].oracle == subs@[q as int].oracle);
                }
            }
            assert(owed(payments.view(), o) == owed(p0, o));
            assert(owed(p0, subs@[q as int].oracle) + ORACLE_PAYMENT <= u64::MAX);
        }
        let ghost before = payments.view();
        payments.set(o, due + ORACLE_PAYMENT);
        proof {
            assert forall|o2: Address| #[trigger] owed(payments.view(), o2) == owed(p0, o2)
                + (if answered(subs@.subrange(0, q + 1), o2) { ORACLE_PAYMENT as int } else { 0int }) by {
                if o2 == o {
                    assert(subs@.subrange(0, q + 1)[q as int].oracle == o);
                    assert(answered(subs@.subrange(0, q + 1), o2));
                } else {
                    assert(owed(payments.view(), o2) == owed(before, o2));
                    if answered(subs@.subrange(0, q + 1), o2) {
                        let w = choose|w: int| 0 <= w < q + 1 && (#[trigger] subs@.subrange(0, q + 1)[w]).oracle == o2;
                        assert(w < q);
                        assert(subs@.subrange(0, q as int)[w].oracle == o2);
                    }
                    if answered(subs@.subrange(0, q as int), o2) {
                        let w = choose|w: int| 0 <= w < q && (#[trigger] subs@.subrange(0, q as int)[w]).oracle == o2;
                        assert(subs@.subrange(0, q + 1)[w].oracle == o2);
                    }
                }
            }
        }
        q += 1;
    }
    proof {
        assert(subs@.subrange(0, subs@.len() as int) =~= subs@);
    }
}


/// Whether `f` is a feed just made by `FeedState::new(description, decimals)`.
pub open spec fn is_fresh_feed(f: FeedState, description: Seq<char>, decimals: u8) -> bool {
    &&& f.wf()
    &&& f.description@ == description
    &&& f.decimals == decimals
    &&& f.version == 4
    &&& f.oracles@.len() == 0
    &&& f.oracle_index.view() == Map::<Address, usize>::empty()
    &&& f.min_submissions == MIN_ORACLE_COUNT
    &&& f.max_submissions == MAX_ORACLES
    &&& f.current_round == 0
    &&& f.latest_round_data is None
    &&& f.pending_submissions.view() == Map::<u64, Vec<OracleSubmission>>::empty()
    &&& f.payments_owed.view() == Map::<Address, u64>::empty()
}

/// All feeds, each under its key, and the feed key of each feed address.
#[derive(Debug)]
pub struct ChainlinkOracle {
    /// Key → feed, in order of registration.
    pub feeds: Vec<(String, FeedState)>,
    /// Feed contract address → feed key.
    pub feed_by_address: Table<Address, String>,
}

impl ChainlinkOracle {
    /// Keys are distinct, every feed is well formed, and the address table
    /// is well formed.
    pub open spec fn wf(&self) -> bool {
        &&& forall|i: int, j: int| 0 <= i < j < self.feeds@.len()
            ==> #[trigger] self.feeds@[i].0@ != #[trigger] self.feeds@[j].0@
        &&& forall|i: int| 0 <= i < self.feeds@.len() ==> (#[trigger] self.feeds@[i]).1.wf()
        &&& self.feed_by_address.wf()
    }

    /// The feed under `key`, if there is one.
    pub open spec fn feed_of(&self, key: Seq<char>) -> Option<FeedState> {
        if exists|i: int| 0 <= i < self.feeds@.len() && self.feeds@[i].0@ == key {
            Some(self.feeds@[choose|i: int| 0 <= i < self.feeds@.len() && self.feeds@[i].0@ == key].1)
        } else {
            None
        }
    }

    /// No feed.
    pub fn new() -> (r: Self)
        ensures
            r.wf(),
            r.feeds@.len() == 0,
            r.feed_by_address.view() == Map::<Address, String>::empty(),
    {
        ChainlinkOracle { feeds: Vec::new(), feed_by_address: Table::new() }
    }

    proof fn lemma_unique(m: Self, i: int, key: Seq<char>)
        requires
            m.wf(),
            0 <= i < m.feeds@.len(),
            m.feeds@[i].0@ == key,
        ensures
            m.feed_of(key) == Some(m.feeds@[i].1),
    {
        let k = choose|k: int| 0 <= k < m.feeds@.len() && m.feeds@[k].0@ == key;
        if k != i {
            if k < i {
                assert(m.feeds@[k].0@ != m.feeds@[i].0@);
            } else {
                assert(m.feeds@[i].0@ != m.feeds@[k].0@);
            }
        }
    }

    /// After entry `i` of `m0` is replaced under the same key, the other
    /// keys keep their feeds.
    proof fn lemma_after_set(m0: Self, m1: Self, i: int)
        requires
            m0.wf(),
            m1.wf(),
            0 <= i < m0.feeds@.len(),
            m1.feeds@ == m0.feeds@.update(i, m1.feeds@[i]),
            m1.feeds@[i].0@ == m0.feeds@[i].0@,
        ensures
            m1.feed_of(m0.feeds@[i].0@) == Some(m1.feeds@[i].1),
            forall|f: Seq<char>| f != m0.feeds@[i].0@ ==> #[trigger] m1.feed_of(f) == m0.feed_of(f),
    {
        Self::lemma_unique(m1, i, m0.feeds@[i].0@);
        assert forall|f: Seq<char>| f != m0.feeds@[i].0@ implies #[trigger] m1.feed_of(f) == m0.feed_of(f) by {
            if m0.feed_of(f) is Some {
                let k = choose|k: int| 0 <= k < m0.feeds@.len() && m0.feeds@[k].0@ == f;
                Self::lemma_unique(m0, k, f);
                assert(m1.feeds@[k] == m0.feeds@[k]);
                Self::lemma_unique(m1, k, f);
            } else if m1.feed_of(f) is Some {
                let k = choose|k: int| 0 <= k < m1.feeds@.len() && m1.feeds@[k].0@ == f;
                assert(m0.feeds@[k].0@ == f);
            }
        }
    }

    /// After one entry is appended to `m0`, the other keys keep their feeds.
    proof fn lemma_after_push(m0: Self, m1: Self)
        requires
            m0.wf(),
            m1.wf(),
            m1.feeds@.len() == m0.feeds@.len() + 1,
            m1.feeds@.drop_last() == m0.feeds@,
        ensures
            m1.feed_of(m1.feeds@.last().0@) == Some(m1.feeds@.last().1),
            forall|f: Seq<char>| f != m1.feeds@.last().0@ ==> #[trigger] m1.feed_of(f) == m0.feed_of(f),
    {
        let n = m0.feeds@.len() as int;
        Self::lemma_unique(m1, n, m1.feeds@.last().0@);
        assert forall|f: Seq<char>| f != m1.feeds@.last().0@ implies #[trigger] m1.feed_of(f) == m0.feed_of(f) by {
            if m0.feed_of(f) is Some {
                let k = choose|k: int| 0 <= k < m0.feeds@.len() && m0.feeds@[k].0@ == f;
                Self::lemma_unique(m0, k, f);
                assert(m1.feeds@[k] == m0.feeds@[k]);
                Self::lemma_unique(m1, k, f);
            } else if m1.feed_of(f) is Some {
                let k = choose|k: int| 0 <= k < m1.feeds@.len() && m1.feeds@[k].0@ == f;
                if k < n {
                    assert(m0.feeds@[k].0@ == f);
                }
            }
        }
    }

    fn find(&self, key: &str) -> (r: Option<usize>)
        requires
            self.wf(),
        ensures
            match r {
                Some(i) => i < self.feeds@.len() && self.feeds@[i as int].0@ == key@
                    && self.feed_of(key@) == Some(self.feeds@[i as int].1),
                None => self.feed_of(key@) is None,
            },
    {
        let mut i: usize = 0;
        while i < self.feeds.len()
            invariant
                self.wf(),
                0 <= i <= self.feeds@.len(),
                forall|k: int| 0 <= k < i ==> #[trigger] self.feeds@[k].0@ != key@,
            decreases self.feeds@.len() - i,
        {
            if str_eq(self.feeds[i].0.as_str(), key) {
                proof {
                    Self::lemma_unique(*self, i as int, key@);
                }
                return Some(i);
            }
            i += 1;
        }
        None
    }

    /// Registers a fresh feed under `key` (replacing any feed of that key)
    /// and records `address` as its contract address.
    pub fn add_feed(&mut self, key: String, description: String, decimals: u8, address: Address)
        requires
            old(self).wf(),
        ensures
            final(self).wf(),
            final(self).feed_of(key@) matches Some(f) && is_fresh_feed(f, description@, decimals),
            forall|k: Seq<char>| k != key@ ==> #[trigger] final(self).feed_of(k) == old(self).feed_of(k),
            final(self).feed_by_address.view().dom() == old(self).feed_by_address.view().dom().insert(address),
            final(self).feed_by_address.view()[address]@ == key@,
            forall|a: Address| a != address ==> #[trigger] final(self).feed_by_address.view().get(a)
                == old(self).feed_by_address.view().get(a),
    {
        let ghost kv = key@;
        let ghost dv = description@;
        let feed = FeedState::new(description, decimals);
        let key2 = key.clone();
        proof {
            assert(feed.oracle_index.view() =~= Map::<Address, usize>::empty()) by {
                assert forall|o: Address| !feed.oracle_index.view().dom().contains(o) by {
                    if feed.oracle_index.view().dom().contains(o) {
                        let i = choose|i: int| 0 <= i < feed.oracles@.len() && feed.oracles@[i] == o;
                    }
                }
            }
        }
        match self.find(key.as_str()) {
            Some(i) => {
                let _old = self.feeds.remove(i);
                self.feeds.insert(i, (key, feed));
                proof {
                    assert(self.feeds@ =~= old(self).feeds@.update(i as int, (key, feed)));
                    assert forall|a: int, c: int| 0 <= a < c < self.feeds@.len() implies
                        #[trigger] self.feeds@[a].0@ != #[trigger] self.feeds@[c].0@ by {
                        assert(old(self).feeds@[a].0@ != old(self).feeds@[c].0@);
                    }
                    assert forall|a: int| 0 <= a < self.feeds@.len() implies (#[trigger] self.feeds@[a]).1.wf() by {
                        if a != i {
                            assert(self.feeds@[a] == old(self).feeds@[a]);
                        }
                    }
                    let ghost mid = *self;
                    Self::lemma_after_set(*old(self), mid, i as int);
                }
            },
            None => {
                self.feeds.push((key, feed));
                proof {
                    let n = old(self).feeds@.len() as int;
                    assert(self.feeds@.drop_last() =~= old(self).feeds@);
                    assert forall|a: int, c: int| 0 <= a < c < self.feeds@.len() implies
                        #[trigger] self.feeds@[a].0@ != #[trigger] self.feeds@[c].0@ by {
                        if c == n {
                            assert(old(self).feeds@[a].0@ != kv);
                        } else {
                            assert(old(self).feeds@[a].0@ != old(self).feeds@[c].0@);
                        }
                    }
                    assert forall|a: int| 0 <= a < self.feeds@.len() implies (#[trigger] self.feeds@[a]).1.wf() by {
                        if a < n {
                            assert(self.feeds@[a] == old(self).feeds@[a]);
                        }
                    }
                    let ghost mid = *self;
                    Self::lemma_after_push(*old(self), mid);
                }
            },
        }
        let ghost mid = *self;
        self.feed_by_address.set(address, key2);
        proof {
            assert forall|k: Seq<char>| #[trigger] self.feed_of(k) == mid.feed_of(k) by {
                assert(self.feeds@ == mid.feeds@);
            }
        }
    }

    /// Submits `oracle`'s answer to the next round of the feed `feed_key`.
    pub fn submit(&mut self, feed_key: &str, oracle: Address, answer: i128, timestamp: u64)
        -> (r: Result<Option<RoundData>, OracleError>)
        requires
            old(self).wf(),
            old(self).feed_of(feed_key@) matches Some(f) ==> f.current_round < u64::MAX && ({
                let round = (f.current_round + 1) as u64;
                let s2 = pending_of(f, round).push(OracleSubmission { oracle, answer, timestamp });
                f.oracle_index.view().dom().contains(oracle) && !answered(pending_of(f, round), oracle)
                    && s2.len() >= f.min_submissions ==> aggregation_fits(f, s2)
            }),
        ensures
            final(self).wf(),
            final(self).feed_by_address == old(self).feed_by_address,
            match old(self).feed_of(feed_key@) {
                None => (r matches Err(OracleError::FeedNotFound(k)) && k@ == feed_key@)
                    && final(self).feeds@ == old(self).feeds@,
                Some(f) => final(self).feed_of(feed_key@) matches Some(t)
                    && submit_post(f, t, oracle, (f.current_round + 1) as u64, answer, timestamp, r),
            },
            forall|k: Seq<char>| k != feed_key@ ==> #[trigger] final(self).feed_of(k) == old(self).feed_of(k),
    {
        match self.find(feed_key) {
            None => Err(OracleError::FeedNotFound(feed_key.to_string())),
            Some(i) => {
                let (k, mut f) = self.feeds.remove(i);
                proof {
                    assert((k, f) == old(self).feeds@[i as int]);
                }
                let round_id = f.current_round + 1;
                let r = f.submit(oracle, round_id, answer, timestamp);
                self.feeds.insert(i, (k, f));
                proof {
                    assert(self.feeds@ =~= old(self).feeds@.update(i as int, (k, f)));
                    assert forall|a: int, c: int| 0 <= a < c < self.feeds@.len() implies
                        #[trigger] self.feeds@[a].0@ != #[trigger] self.feeds@[c].0@ by {
                        assert(old(self).feeds@[a].0@ != old(self).feeds@[c].0@);
                    }
                    assert forall|a: int| 0 <= a < self.feeds@.len() implies (#[trigger] self.feeds@[a]).1.wf() by {
                        if a != i {
                            assert(self.feeds@[a] == old(self).feeds@[a]);
                        }
                    }
                    let ghost mid = *self;
                    Self::lemma_after_set(*old(self), mid, i as int);
                }
                r
            },
        }
    }

    /// The latest round of the feed `feed_key`.
    pub fn get_price(&self, feed_key: &str) -> (r: Result<RoundData, OracleError>)
        requires
            self.wf(),
        ensures
            match self.feed_of(feed_key@) {
                None => r matches Err(OracleError::FeedNotFound(k)) && k@ == feed_key@,
                Some(f) => match f.latest_round_data {
                    Some(rd) => (r matches Ok(x) && x == rd),
                    None => r matches Err(OracleError::NoData),
                },
            },
    {
        match self.find(feed_key) {
            None => Err(OracleError::FeedNotFound(feed_key.to_string())),
            Some(i) => self.feeds[i].1.latest_round_data(),
        }
    }
}

impl Default for ChainlinkOracle {
    fn default() -> (r: Self)
        ensures
            r.wf(),
            r.feeds@.len() == 0,
    {
        Self::new()
    }
}

} // verus!
