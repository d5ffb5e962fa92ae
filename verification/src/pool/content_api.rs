//! The mempool content view: pending and queued transactions grouped by
//! sender and nonce, and their counts.

use vstd::prelude::*;
use crate::table::Table;
use crate::text::str_eq;
use crate::common::{decimal, u64_to_decimal};

verus! {

/// A transaction as the content view shows it.
#[derive(Debug, Clone)]
pub struct TxSummary {
    pub hash: String,
    pub from: String,
    /// `None` for a contract creation.
    pub to: Option<String>,
    /// Value in wei, as a decimal string.
    pub value: String,
    pub gas: u64,
    pub max_fee_per_gas: String,
    pub max_priority_fee: String,
    pub nonce: u64,
    /// Size of the call data in bytes.
    pub data_size: usize,
    /// Unix time the pool received it.
    pub received_at: u64,
}

/// Two summaries hold the same text and numbers.
pub open spec fn same_summary(a: TxSummary, b: TxSummary) -> bool {
    &&& a.hash@ == b.hash@
    &&& a.from@ == b.from@
    &&& match (a.to, b.to) {
        (Some(x), Some(y)) => x@ == y@,
        (None, None) => true,
        _ => false,
    }
    &&& a.value@ == b.value@
    &&& a.gas == b.gas
    &&& a.max_fee_per_gas@ == b.max_fee_per_gas@
    &&& a.max_priority_fee@ == b.max_priority_fee@
    &&& a.nonce == b.nonce
    &&& a.data_size == b.data_size
    &&& a.received_at == b.received_at
}

impl TxSummary {
    /// A copy of the summary.
    pub fn copied(&self) -> (r: Self)
        ensures
            same_summary(r, *self),
    {
        TxSummary {
            hash: self.hash.clone(),
            from: self.from.clone(),
            to: match &self.to {
                Some(t) => Some(t.clone()),
                None => None,
            },
            value: self.value.clone(),
            gas: self.gas,
            max_fee_per_gas: self.max_fee_per_gas.clone(),
            max_priority_fee: self.max_priority_fee.clone(),
            nonce: self.nonce,
            data_size: self.data_size,
            received_at: self.received_at,
        }
    }
}



/// The pool's content.
#[derive(Debug)]
pub struct TxPoolContent {
    pub pending: Vec<(String, Table<u64, TxSummary>)>,
    pub queued: Vec<(String, Table<u64, TxSummary>)>,
}

/// The pending and queued counts.
#[derive(Debug, Clone, Copy)]
pub struct TxPoolStatus {
    pub pending: u64,
    pub queued: u64,
}

/// Pool metrics for monitoring.
#[derive(Debug, Clone, Copy, Default)]
pub struct MempoolStats {
    pub pending_count: u64,
    pub queued_count: u64,
    pub pending_bytes: u64,
    pub queued_bytes: u64,
    pub txs_added_total: u64,
    pub txs_removed_mined: u64,
    pub txs_removed_evicted: u64,
    pub txs_rejected_total: u64,
    pub txs_replaced_by_fee: u64,
    pub avg_pending_gas_price: u128,
    pub min_pending_gas_price: u128,
    pub max_pending_gas_price: u128,
    pub unique_senders: u64,
}

/// Filters of a pending-transaction query.
#[derive(Debug, Default)]
pub struct PendingInspect {
    pub sender: Option<String>,
    pub min_gas: Option<u128>,
    pub max_gas: Option<u128>,
    pub nonce_min: Option<u64>,
    pub nonce_max: Option<u64>,
    pub limit: Option<usize>,
}

/// An emergency flush of the pool by an admin.
#[derive(Debug)]
pub struct MempoolFlushCmd {
    pub admin: [u8; 20],
    pub reason: String,
    pub block: u64,
    pub txs_flushed: u64,
}

/// Group `i` of `g` is the first with sender `s`.
pub open spec fn first_group(g: Seq<(String, Table<u64, TxSummary>)>, i: int, s: Seq<char>) -> bool {
    &&& 0 <= i < g.len()
    &&& g[i].0@ == s
    &&& forall|j: int| 0 <= j < i ==> (#[trigger] g[j]).0@ != s
}

/// The transaction of sender `s` with nonce `n` in the groups `g` (from
/// the first group of `s`).
pub open spec fn group_lookup(g: Seq<(String, Table<u64, TxSummary>)>, s: Seq<char>, n: u64) -> Option<TxSummary> {
    if exists|i: int| first_group(g, i, s) {
        let t = g[choose|i: int| first_group(g, i, s)].1;
        if t.view().dom().contains(n) { Some(t.view()[n]) } else { None }
    } else {
        None
    }
}

/// The last of the first `k` listed transactions with sender `s` and nonce `n`.
pub open spec fn last_listed(e: Seq<(String, u64, TxSummary)>, k: int, s: Seq<char>, n: u64) -> Option<TxSummary>
    decreases k,
{
    if k <= 0 {
        None
    } else if e[k - 1].0@ == s && e[k - 1].1 == n {
        Some(e[k - 1].2)
    } else {
        last_listed(e, k - 1, s, n)
    }
}

/// The groups `g` hold exactly the last listed transaction of each sender
/// and nonce among the first `k` of `e`.
pub open spec fn groups_match(g: Seq<(String, Table<u64, TxSummary>)>, e: Seq<(String, u64, TxSummary)>, k: int) -> bool {
    &&& forall|i: int| 0 <= i < g.len() ==> (#[trigger] g[i]).1.wf()
    &&& forall|s: Seq<char>, n: u64| match (#[trigger] group_lookup(g, s, n), last_listed(e, k, s, n)) {
        (Some(a), Some(b)) => same_summary(a, b),
        (None, None) => true,
        _ => false,
    }
}

proof fn lemma_first_group_unique(g: Seq<(String, Table<u64, TxSummary>)>, i: int, s: Seq<char>)
    requires
        first_group(g, i, s),
    ensures
        (choose|k: int| first_group(g, k, s)) == i,
{
    let k = choose|k: int| first_group(g, k, s);
    if k < i {
        assert(g[k].0@ != s);
    } else if k > i {
        assert(g[i].0@ != s);
    }
}

/// Groups the listed `(sender, nonce, summary)` triples by sender and
/// nonce; a later triple for the same sender and nonce replaces an
/// earlier one.
fn group_by_sender(entries: &[(String, u64, TxSummary)]) -> (r: Vec<(String, Table<u64, TxSummary>)>)
    ensures
        groups_match(r@, entries@, entries@.len() as int),
{
    let mut groups: Vec<(String, Table<u64, TxSummary>)> = Vec::new();
    let mut i: usize = 0;
    while i < entries.len()
        invariant
            0 <= i <= entries@.len(),
            groups_match(groups@, entries@, i as int),
        decreases entries@.len() - i,
    {
        let ghost g0 = groups@;
        let sender = &entries[i].0;
        let nonce = entries[i].1;
        let summary = entries[i].2.copied();
        let mut found: Option<usize> = None;
        let mut j: usize = 0;
        while j < groups.len()
            invariant_except_break
                found is None,
            invariant
                groups@ == g0,
                0 <= j <= g0.len(),
                forall|k: int| 0 <= k < j ==> (#[trigger] g0[k]).0@ != sender@,
            ensures
                groups@ == g0,
                match found {
                    Some(x) => first_group(g0, x as int, sender@),
                    None => forall|k: int| 0 <= k < g0.len() ==> (#[trigger] g0[k]).0@ != sender@,
                },
            decreases g0.len() - j,
        {
            if str_eq(groups[j].0.as_str(), sender.as_str()) {
                found = Some(j);
                break;
            }
            j += 1;
        }
        let ghost e = entries@;
        let ghost k = i as int;
        match found {
            Some(x) => {
                let (key, mut table) = groups.remove(x);
                proof {
                    assert((key, table) == g0[x as int]);
                    assert(table.wf());
                }
                table.set(nonce, summary);
                groups.insert(x, (key, table));
                proof {
                    let g1 = groups@;
                    assert(g1 =~= g0.update(x as int, (key, table)));
                    assert forall|a: int| 0 <= a < g1.len() implies (#[trigger] g1[a]).1.wf() by {
                        if a != x { assert(g1[a] == g0[a]); }
                    }
                    assert forall|s: Seq<char>, n: u64| match (#[trigger] group_lookup(g1, s, n), last_listed(e, k + 1, s, n)) {
                        (Some(a), Some(b)) => same_summary(a, b),
                        (None, None) => true,
                        _ => false,
                    } by {
                        let _before = group_lookup(g0, s, n);
                        if s == sender@ {
                            assert(first_group(g1, x as int, s));
                            lemma_first_group_unique(g1, x as int, s);
                            lemma_first_group_unique(g0, x as int, s);
                        } else {
                            if exists|q: int| first_group(g0, q, s) {
                                let q = choose|q: int| first_group(g0, q, s);
                                assert(g1[q] == g0[q]);
                                assert(first_group(g1, q, s));
                                lemma_first_group_unique(g1, q, s);
                            } else if exists|q: int| first_group(g1, q, s) {
                                let q = choose|q: int| first_group(g1, q, s);
                                assert(g0[q].0@ == g1[q].0@);
                                assert forall|w: int| 0 <= w < q implies (#[trigger] g0[w]).0@ != s by {
                                    assert(g0[w].0@ == g1[w].0@);
                                }
                                assert(first_group(g0, q, s));
                            }
                        }
                    }
                }
            },
            None => {
                let mut table: Table<u64, TxSummary> = Table::new();
                table.set(nonce, summary);
                let name = sender.clone();
                groups.push((name, table));
                proof {
                    let g1 = groups@;
                    let m = g0.len() as int;
                    assert forall|a: int| 0 <= a < g1.len() implies (#[trigger] g1[a]).1.wf() by {
                        if a < m { assert(g1[a] == g0[a]); }
                    }
                    assert forall|s: Seq<char>, n: u64| match (#[trigger] group_lookup(g1, s, n), last_listed(e, k + 1, s, n)) {
                        (Some(a), Some(b)) => same_summary(a, b),
                        (None, None) => true,
                        _ => false,
                    } by {
                        let _before = group_lookup(g0, s, n);
                        if s == sender@ {
                            assert forall|q: int| 0 <= q < m implies (#[trigger] g1[q]).0@ != s by {
                                assert(g1[q] == g0[q]);
                            }
                            assert(first_group(g1, m, s));
                            lemma_first_group_unique(g1, m, s);
                            assert(!exists|q: int| first_group(g0, q, s));
                        } else {
                            if exists|q: int| first_group(g0, q, s) {
                                let q = choose|q: int| first_group(g0, q, s);
                                assert(g1[q] == g0[q]);
                                assert(forall|w: int| 0 <= w < q ==> g1[w] == g0[w]);
                                assert(first_group(g1, q, s));
                                lemma_first_group_unique(g1, q, s);
                            } else if exists|q: int| first_group(g1, q, s) {
                                let q = choose|q: int| first_group(g1, q, s);
                                assert(q < m);
                                assert(forall|w: int| 0 <= w <= q ==> g1[w] == g0[w]);
                                assert(first_group(g0, q, s));
                            }
                        }
                    }
                }
            },
        }
        i += 1;
    }
    groups
}

/// Builds the content view from the pending and the queued
/// `(sender, nonce, summary)` triples.
pub fn build_pool_content(pending: &[(String, u64, TxSummary)], queued: &[(String, u64, TxSummary)]) -> (r: TxPoolContent)
    ensures
        groups_match(r.pending@, pending@, pending@.len() as int),
        groups_match(r.queued@, queued@, queued@.len() as int),
{
    TxPoolContent { pending: group_by_sender(pending), queued: group_by_sender(queued) }
}

/// The number of transactions in the first `k` groups.
pub open spec fn count_prefix(g: Seq<(String, Table<u64, TxSummary>)>, k: int) -> int
    decreases k,
{
    if k <= 0 { 0 } else { count_prefix(g, k - 1) + g[k - 1].1.spec_entries().len() }
}

proof fn lemma_count_monotone(g: Seq<(String, Table<u64, TxSummary>)>, i: int, k: int)
    requires
        0 <= i <= k <= g.len(),
    ensures
        count_prefix(g, i) <= count_prefix(g, k),
    decreases k - i,
{
    if i < k {
        lemma_count_monotone(g, i, k - 1);
    }
}

/// The number of transactions in the groups `g`.
fn count_all(g: &Vec<(String, Table<u64, TxSummary>)>) -> (r: u64)
    requires
        count_prefix(g@, g@.len() as int) <= u64::MAX,
    ensures
        r == count_prefix(g@, g@.len() as int),
{
    let mut total: u64 = 0;
    let mut i: usize = 0;
    while i < g.len()
        invariant
            0 <= i <= g@.len(),
            total == count_prefix(g@, i as int),
            count_prefix(g@, g@.len() as int) <= u64::MAX,
        decreases g@.len() - i,
    {
        proof {
            lemma_count_monotone(g@, i as int + 1, g@.len() as int);
        }
        total = total + g[i].1.len() as u64;
        i += 1;
    }
    total
}

/// The pending and queued counts of `content`.
pub fn pool_status(content: &TxPoolContent) -> (r: TxPoolStatus)
    requires
        count_prefix(content.pending@, content.pending@.len() as int) <= u64::MAX,
        count_prefix(content.queued@, content.queued@.len() as int) <= u64::MAX,
    ensures
        r.pending == count_prefix(content.pending@, content.pending@.len() as int),
        r.queued == count_prefix(content.queued@, content.queued@.len() as int),
{
    TxPoolStatus { pending: count_all(&content.pending), queued: count_all(&content.queued) }
}

/// The one-line description of a transaction:
/// `"<to>: <value> wei + <gas> gas * <max fee> wei/gas"`, with
/// `contract_creation` in place of a missing recipient.
pub open spec fn inspect_line_spec(t: TxSummary) -> Seq<char> {
    (match t.to { Some(x) => x@, None => "contract_creation"@ }) + ": "@ + t.value@ + " wei + "@
        + decimal(t.gas as nat) + " gas * "@ + t.max_fee_per_gas@ + " wei/gas"@
}

/// The one-line description of `t`.
pub fn inspect_line(t: &TxSummary) -> (r: String)
    ensures
        r@ == inspect_line_spec(*t),
{
    let mut line = match &t.to {
        Some(x) => x.clone(),
        None => String::from_str("contract_creation"),
    };
    line.append(": ");
    line.append(t.value.as_str());
    line.append(" wei + ");
    let gas = u64_to_decimal(t.gas);
    line.append(gas.as_str());
    line.append(" gas * ");
    line.append(t.max_fee_per_gas.as_str());
    line.append(" wei/gas");
    line
}

/// One line per transaction of the table `t`, under the same nonces.
fn inspect_table(t: &Table<u64, TxSummary>) -> (r: Table<u64, String>)
    requires
        t.wf(),
    ensures
        r.wf(),
        forall|n: u64| #[trigger] r.view().dom().contains(n) == t.view().dom().contains(n),
        forall|n: u64| t.view().dom().contains(n) ==> #[trigger] r.view()[n]@ == inspect_line_spec(t.view()[n]),
{
    let ghost e = t.spec_entries();
    let mut out: Table<u64, String> = Table::new();
    let mut k: usize = 0;
    while k < t.len()
        invariant
            t.wf(),
            e == t.spec_entries(),
            out.wf(),
            0 <= k <= e.len(),
            forall|j: int| 0 <= j < k ==> #[trigger] out.view().dom().contains(e[j].0)
                && out.view()[e[j].0]@ == inspect_line_spec(e[j].1),
            forall|n: u64| #[trigger] out.view().dom().contains(n) ==> exists|j: int| 0 <= j < k && e[j].0 == n,
        decreases e.len() - k,
    {
        let key = *t.key_at(k);
        let line = inspect_line(t.value_at(k));
        let ghost before = out.view();
        out.set(key, line);
        proof {
            assert forall|j: int| 0 <= j < k + 1 implies #[trigger] out.view().dom().contains(e[j].0)
                && out.view()[e[j].0]@ == inspect_line_spec(e[j].1) by {
                if j < k {
                    assert(e[j].0 != e[k as int].0);
                }
            }
            assert forall|n: u64| #[trigger] out.view().dom().contains(n) implies exists|j: int| 0 <= j < k + 1 && e[j].0 == n by {
                if n != key {
                    assert(before.dom().contains(n));
                }
            }
        }
        k += 1;
    }
    proof {
        assert forall|n: u64| #[trigger] out.view().dom().contains(n) == t.view().dom().contains(n) by {
            if out.view().dom().contains(n) {
                let j = choose|j: int| 0 <= j < k && e[j].0 == n;
                t.lemma_entry_in_view(j);
            }
            if t.view().dom().contains(n) {
                t.lemma_view_has_entry(n);
                let j = choose|j: int| 0 <= j < e.len() && (#[trigger] e[j]).0 == n;
                assert(out.view().dom().contains(e[j].0));
            }
        }
        assert forall|n: u64| t.view().dom().contains(n) implies #[trigger] out.view()[n]@ == inspect_line_spec(t.view()[n]) by {
            t.lemma_view_has_entry(n);
            let j = choose|j: int| 0 <= j < e.len() && (#[trigger] e[j]).0 == n;
            t.lemma_entry_in_view(j);
            assert(j < k);
            assert(out.view().dom().contains(e[j].0));
            assert(out.view()[e[j].0]@ == inspect_line_spec(e[j].1));
        }
    }
    out
}

/// A one-line description of each pending transaction, by sender and
/// nonce.
pub fn pool_inspect(content: &TxPoolContent) -> (r: Vec<(String, Table<u64, String>)>)
    requires
        forall|i: int| 0 <= i < content.pending@.len() ==> (#[trigger] content.pending@[i]).1.wf(),
    ensures
        r@.len() == content.pending@.len(),
        forall|i: int| 0 <= i < r@.len() ==> {
            let (s, t) = #[trigger] r@[i];
            let (s0, t0) = content.pending@[i];
            &&& s@ == s0@
            &&& t.wf()
            &&& forall|n: u64| #[trigger] t.view().dom().contains(n) == t0.view().dom().contains(n)
            &&& forall|n: u64| t0.view().dom().contains(n) ==> #[trigger] t.view()[n]@ == inspect_line_spec(t0.view()[n])
        },
{
    let mut out: Vec<(String, Table<u64, String>)> = Vec::new();
    let mut i: usize = 0;
    while i < content.pending.len()
        invariant
            0 <= i <= content.pending@.len(),
            forall|a: int| 0 <= a < content.pending@.len() ==> (#[trigger] content.pending@[a]).1.wf(),
            out@.len() == i,
            forall|a: int| 0 <= a < i ==> {
                let (s, t) = #[trigger] out@[a];
                let (s0, t0) = content.pending@[a];
                &&& s@ == s0@
                &&& t.wf()
                &&& forall|n: u64| #[trigger] t.view().dom().contains(n) == t0.view().dom().contains(n)
                &&& forall|n: u64| t0.view().dom().contains(n) ==> #[trigger] t.view()[n]@ == inspect_line_spec(t0.view()[n])
            },
        decreases content.pending@.len() - i,
    {
        let name = content.pending[i].0.clone();
        let lines = inspect_table(&content.pending[i].1);
        let ghost before = out@;
        out.push((name, lines));
        proof {
            assert forall|a: int| 0 <= a < i + 1 implies {
                let (s, t) = #[trigger] out@[a];
                let (s0, t0) = content.pending@[a];
                &&& s@ == s0@
                &&& t.wf()
                &&& forall|n: u64| #[trigger] t.view().dom().contains(n) == t0.view().dom().contains(n)
                &&& forall|n: u64| t0.view().dom().contains(n) ==> #[trigger] t.view()[n]@ == inspect_line_spec(t0.view()[n])
            } by {
                if a < i {
                    assert(out@[a] == before[a]);
                }
            }
        }
        i += 1;
    }
    out
}

} // verus!
