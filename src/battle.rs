//! A battle as a whole: its parameters, how connections are spread over
//! workers, the retry policy of the health check, and the summary made of the
//! workers' measurements.
use std::collections::HashMap;
use vstd::prelude::*;
use crate::stats::{
    lemma_range_total_merged, merge_into, merged, sat_add, saturating_add, total_count,
    WorkerStats,
};
use crate::text::{chars_of, contains, contains_seq};

verus! {

broadcast use vstd::std_specs::hash::group_hash_axioms;

/// What one agent is asked to run.
#[derive(Debug, Clone)]
pub struct BattleParams {
    pub threads: u32,
    pub connections: u32,
    pub duration_secs: u32,
    /// Advisory per-request timeout.
    pub timeout_secs: u32,
    pub url: String,
    pub method: String,
    /// Extra request headers, each written `Name: value`.
    pub headers: Vec<String>,
    pub body: Option<String>,
}

/// Connections of each worker: every one of the `threads` workers gets
/// `connections / threads`.
pub fn plan_workers(threads: u32, connections: u32) -> (r: Vec<u32>)
    ensures
        r@.len() == threads,
        forall|i: int| 0 <= i < threads ==> r@[i] == connections / threads,
        threads > connections ==> forall|i: int| 0 <= i < threads ==> r@[i] == 0,
{
    let mut r: Vec<u32> = Vec::new();
    let mut i: u32 = 0;
    while i < threads
        invariant
            i <= threads,
            r@.len() == i,
            forall|j: int| 0 <= j < i ==> r@[j] == connections / threads,
        decreases threads - i,
    {
        r.push(connections / threads);
        i = i + 1;
    }
    if threads > connections {
        assert(connections / threads == 0) by (nonlinear_arith)
            requires
                threads > connections,
        ;
    }
    r
}

/// Whether a worker keeps firing: no ceasefire came (`running`) and less
/// than the battle's duration has passed since it started.
pub fn keep_firing(elapsed_micros: u128, duration_secs: u64, running: bool) -> (r: bool)
    ensures
        r == (running && elapsed_micros < duration_secs * 1_000_000),
{
    running && elapsed_micros < (duration_secs as u128) * 1_000_000
}

/// Messages of the transient failures that the health check retries.
pub open spec fn transient_markers() -> Seq<Seq<char>> {
    seq![
        seq!['B', 'r', 'o', 'k', 'e', 'n', ' ', 'p', 'i', 'p', 'e'],
        seq![
            'R', 'e', 's', 'o', 'u', 'r', 'c', 'e', ' ', 't', 'e', 'm', 'p', 'o', 'r', 'a', 'r',
            'i', 'l', 'y', ' ', 'u', 'n', 'a', 'v', 'a', 'i', 'l', 'a', 'b', 'l', 'e',
        ],
        seq!['n', 'o', 't', ' ', 'c', 'o', 'n', 'n', 'e', 'c', 't', 'e', 'd'],
    ]
}

pub open spec fn is_transient(msg: Seq<char>) -> bool {
    exists|i: int| 0 <= i < 3 && contains_seq(msg, #[trigger] transient_markers()[i])
}

/// Attempts the health check makes at most.
pub const HEALTH_CHECK_ATTEMPTS: u32 = 5;

/// Whether the health check tries again after attempt number `attempt`
/// (counted from one) failed with `error`: only transient failures are
/// retried, and only while attempts are left.
pub fn should_retry_health_check(attempt: u32, error: &str) -> (r: bool)
    ensures
        r == (attempt < HEALTH_CHECK_ATTEMPTS && is_transient(error@)),
{
    if attempt >= HEALTH_CHECK_ATTEMPTS {
        return false;
    }
    let msg = chars_of(error);
    let broken: Vec<char> = vec!['B', 'r', 'o', 'k', 'e', 'n', ' ', 'p', 'i', 'p', 'e'];
    let unavailable: Vec<char> = vec![
        'R', 'e', 's', 'o', 'u', 'r', 'c', 'e', ' ', 't', 'e', 'm', 'p', 'o', 'r', 'a', 'r',
        'i', 'l', 'y', ' ', 'u', 'n', 'a', 'v', 'a', 'i', 'l', 'a', 'b', 'l', 'e',
    ];
    let not_connected: Vec<char> = vec!['n', 'o', 't', ' ', 'c', 'o', 'n', 'n', 'e', 'c', 't', 'e', 'd'];
    assert(broken@ =~= transient_markers()[0]);
    assert(unavailable@ =~= transient_markers()[1]);
    assert(not_connected@ =~= transient_markers()[2]);
    let r = contains(&msg, &broken) || contains(&msg, &unavailable) || contains(&msg, &not_connected);
    assert(r == is_transient(error@)) by {
        if is_transient(error@) {
            let i = choose|i: int| 0 <= i < 3 && contains_seq(error@, #[trigger] transient_markers()[i]);
            assert(i == 0 || i == 1 || i == 2);
        }
    }
    r
}

// ---------------------------------------------------------------- summary

/// All latencies of the workers, worker after worker.
pub open spec fn all_latencies(ws: Seq<WorkerStats>) -> Seq<u128>
    decreases ws.len(),
{
    if ws.len() == 0 {
        Seq::empty()
    } else {
        all_latencies(ws.drop_last()) + ws.last().latencies@
    }
}

/// Sum of the workers' request counts.
pub open spec fn requests_total(ws: Seq<WorkerStats>) -> nat
    decreases ws.len(),
{
    if ws.len() == 0 {
        0
    } else {
        requests_total(ws.drop_last()) + ws.last().requests as nat
    }
}

/// Sum of the workers' body bytes.
pub open spec fn bytes_total(ws: Seq<WorkerStats>) -> nat
    decreases ws.len(),
{
    if ws.len() == 0 {
        0
    } else {
        bytes_total(ws.drop_last()) + ws.last().bytes as nat
    }
}

/// The workers' histograms summed key by key.
pub open spec fn counts_total(ws: Seq<WorkerStats>) -> Map<i16, u64>
    decreases ws.len(),
{
    if ws.len() == 0 {
        Map::empty()
    } else {
        merged(counts_total(ws.drop_last()), ws.last().status_counts@)
    }
}

pub open spec fn sorted(s: Seq<u128>) -> bool {
    forall|i: int, j: int| 0 <= i <= j < s.len() ==> s[i] <= s[j]
}

/// The sample element at the `pct`-th percentile of a sorted sample of `n`
/// elements: index `n / 2` for the median, `min(n * pct / 100, n - 1)` otherwise.
pub open spec fn percentile_index(n: nat, pct: nat) -> int {
    if pct == 50 {
        n as int / 2
    } else if n * pct / 100 < n - 1 {
        (n * pct / 100) as int
    } else {
        n - 1
    }
}

pub open spec fn percentile(s: Seq<u128>, pct: nat) -> Option<u128> {
    if s.len() == 0 {
        None
    } else {
        Some(s[percentile_index(s.len(), pct)])
    }
}

/// Relies on std's `slice::sort_unstable`: afterwards the same elements are in
/// ascending order.
#[verifier::external_body]
fn sort_ascending(v: &mut Vec<u128>)
    ensures
        final(v)@.to_multiset() == old(v)@.to_multiset(),
        sorted(final(v)@),
{
    v.sort_unstable();
}

/// What one agent measured in one battle.
#[derive(Debug, Clone)]
pub struct BattleSummary {
    pub requests: u64,
    pub bytes: u64,
    pub status_counts: HashMap<i16, u64>,
    pub latency_p50: Option<u128>,
    pub latency_p90: Option<u128>,
    pub latency_p99: Option<u128>,
    /// Every latency, ascending.
    pub all_latencies: Vec<u128>,
    pub duration_secs: u64,
}

fn pick_percentile(s: &Vec<u128>, pct: u64) -> (r: Option<u128>)
    requires
        pct == 50 || pct == 90 || pct == 99,
    ensures
        r == percentile(s@, pct as nat),
        r is Some ==> 0 <= percentile_index(s@.len(), pct as nat) < s@.len(),
{
    let n = s.len();
    if n == 0 {
        return None;
    }
    let idx: usize = if pct == 50 {
        n / 2
    } else {
        assert((n as u128) * (pct as u128) <= 99 * (usize::MAX as u128)) by (nonlinear_arith)
            requires
                pct <= 99,
                n <= usize::MAX,
        ;
        assert((n as u128) * (pct as u128) / 100 <= n) by (nonlinear_arith)
            requires
                pct <= 99,
        ;
        let scaled = ((n as u128) * (pct as u128) / 100) as usize;
        if scaled < n - 1 {
            scaled
        } else {
            n - 1
        }
    };
    Some(s[idx])
}

pub proof fn lemma_percentile_indices_ordered(n: nat)
    requires
        n > 0,
    ensures
        0 <= percentile_index(n, 50) <= percentile_index(n, 90) <= percentile_index(n, 99) < n,
{
    assert(n * 90 / 100 <= n * 99 / 100) by (nonlinear_arith);
    assert(n / 2 <= n * 90 / 100) by (nonlinear_arith)
        requires
            n > 0,
    ;
    assert(n * 90 / 100 >= 0) by (nonlinear_arith);
}

/// The summary of a battle of `duration_secs` seconds, made of what each
/// worker measured: counts and bytes summed, histograms merged key by key,
/// latencies sorted and their percentiles taken.
pub fn summarize(workers: &Vec<WorkerStats>, duration_secs: u64) -> (s: BattleSummary)
    requires
        forall|i: int| 0 <= i < workers@.len() ==> (#[trigger] workers@[i]).wf(),
    ensures
        s.requests == requests_total(workers@),
        s.requests == s.all_latencies@.len(),
        s.bytes == sat_add(bytes_total(workers@), 0),
        s.status_counts@ == counts_total(workers@),
        s.all_latencies@.to_multiset() == all_latencies(workers@).to_multiset(),
        sorted(s.all_latencies@),
        s.latency_p50 == percentile(s.all_latencies@, 50),
        s.latency_p90 == percentile(s.all_latencies@, 90),
        s.latency_p99 == percentile(s.all_latencies@, 99),
        s.duration_secs == duration_secs,
        total_count(s.status_counts@) >= s.requests,
        s.latency_p50 matches Some(p50) ==> p50 <= s.latency_p90->0 && s.latency_p90->0
            <= s.latency_p99->0,
{
    let mut lat: Vec<u128> = Vec::new();
    let mut bytes: u64 = 0;
    let mut counts: HashMap<i16, u64> = HashMap::new();
    let mut i: usize = 0;
    while i < workers.len()
        invariant
            i <= workers@.len(),
            forall|k: int| 0 <= k < workers@.len() ==> (#[trigger] workers@[k]).wf(),
            lat@ == all_latencies(workers@.take(i as int)),
            lat@.len() == requests_total(workers@.take(i as int)),
            bytes == sat_add(bytes_total(workers@.take(i as int)), 0),
            counts@ == counts_total(workers@.take(i as int)),
            total_count(counts@) >= requests_total(workers@.take(i as int)),
        decreases workers@.len() - i,
    {
        let w = &workers[i];
        let ghost before = lat@;
        let mut j: usize = 0;
        while j < w.latencies.len()
            invariant
                j <= w.latencies@.len(),
                lat@ == before + w.latencies@.take(j as int),
            decreases w.latencies@.len() - j,
        {
            lat.push(w.latencies[j]);
            j = j + 1;
        }
        assert(w.latencies@.take(w.latencies@.len() as int) =~= w.latencies@);
        let _n = lat.len();
        let ghost prev = counts@;
        merge_into(&mut counts, &w.status_counts);
        bytes = saturating_add(bytes, w.bytes);
        proof {
            let t = workers@.take(i + 1);
            assert(t.drop_last() =~= workers@.take(i as int));
            assert(t.last() == workers@[i as int]);
            lemma_range_total_merged(prev, w.status_counts@, i16::MIN as int, i16::MAX as int + 1);
        }
        i = i + 1;
    }
    assert(workers@.take(workers@.len() as int) =~= workers@);
    sort_ascending(&mut lat);
    proof {
        lat@.to_multiset_ensures();
        all_latencies(workers@).to_multiset_ensures();
    }
    let requests = lat.len() as u64;
    proof {
        if lat@.len() > 0 {
            law_percentiles_ordered(lat@);
        }
    }
    let p50 = pick_percentile(&lat, 50);
    let p90 = pick_percentile(&lat, 90);
    let p99 = pick_percentile(&lat, 99);
    BattleSummary {
        requests,
        bytes,
        status_counts: counts,
        latency_p50: p50,
        latency_p90: p90,
        latency_p99: p99,
        all_latencies: lat,
        duration_secs,
    }
}

/// The latency percentiles of a summary are ordered: p50 <= p90 <= p99.
pub proof fn law_percentiles_ordered(s: Seq<u128>)
    requires
        sorted(s),
        s.len() > 0,
    ensures
        percentile(s, 50)->0 <= percentile(s, 90)->0,
        percentile(s, 90)->0 <= percentile(s, 99)->0,
{
    lemma_percentile_indices_ordered(s.len());
}

/// Whether a worker measured nothing, as one with no connections does.
pub open spec fn is_idle(w: WorkerStats) -> bool {
    &&& w.requests == 0
    &&& w.bytes == 0
    &&& w.latencies@.len() == 0
    &&& w.status_counts@ == Map::<i16, u64>::empty()
}

/// Workers that measured nothing add up to a zero result: no requests, no
/// bytes, an empty histogram and no latency.
pub proof fn law_idle_workers_zero_result(ws: Seq<WorkerStats>)
    requires
        forall|i: int| 0 <= i < ws.len() ==> is_idle(#[trigger] ws[i]),
    ensures
        requests_total(ws) == 0,
        bytes_total(ws) == 0,
        all_latencies(ws).len() == 0,
        counts_total(ws) == Map::<i16, u64>::empty(),
    decreases ws.len(),
{
    if ws.len() > 0 {
        let rest = ws.drop_last();
        assert forall|i: int| 0 <= i < rest.len() implies is_idle(#[trigger] rest[i]) by {
            assert(rest[i] == ws[i]);
        }
        law_idle_workers_zero_result(rest);
        assert(is_idle(ws[ws.len() - 1]));
        assert(merged(Map::<i16, u64>::empty(), Map::<i16, u64>::empty()) =~= Map::<
            i16,
            u64,
        >::empty());
    }
}

} // verus!
