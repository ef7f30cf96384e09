//! Per-worker measurement: request count, body bytes, latency sample and the
//! status histogram, whose negative keys are transport-error classes.
use std::collections::HashMap;
use vstd::prelude::*;

verus! {

broadcast use vstd::std_specs::hash::group_hash_axioms;

/// `a + b`, held at `u64::MAX` when it does not fit.
pub open spec fn sat_add(a: nat, b: nat) -> u64 {
    if a + b > u64::MAX {
        u64::MAX
    } else {
        (a + b) as u64
    }
}

pub fn saturating_add(a: u64, b: u64) -> (r: u64)
    ensures
        r == sat_add(a as nat, b as nat),
{
    if a > u64::MAX - b {
        u64::MAX
    } else {
        a + b
    }
}

/// How often `k` was counted in `m` (zero when it is absent).
pub open spec fn count_of(m: Map<i16, u64>, k: i16) -> nat {
    if m.contains_key(k) {
        m[k] as nat
    } else {
        0
    }
}

/// Sum of the counts of the keys in `lo..hi`.
pub open spec fn range_total(m: Map<i16, u64>, lo: int, hi: int) -> nat
    decreases hi - lo,
{
    if lo >= hi {
        0
    } else {
        range_total(m, lo, hi - 1) + count_of(m, (hi - 1) as i16)
    }
}

/// Sum of all counts of a status histogram.
pub open spec fn total_count(m: Map<i16, u64>) -> nat {
    range_total(m, i16::MIN as int, i16::MAX as int + 1)
}

/// `m` with one more occurrence of `k`.
pub open spec fn bumped(m: Map<i16, u64>, k: i16) -> Map<i16, u64> {
    m.insert(k, sat_add(count_of(m, k), 1))
}

/// The pointwise sum of two histograms.
pub open spec fn merged(a: Map<i16, u64>, b: Map<i16, u64>) -> Map<i16, u64> {
    Map::new(
        |k: i16| a.contains_key(k) || b.contains_key(k),
        |k: i16| sat_add(count_of(a, k), count_of(b, k)),
    )
}

pub proof fn lemma_range_total_insert(m: Map<i16, u64>, k: i16, v: u64, lo: int, hi: int)
    requires
        i16::MIN <= lo <= hi <= i16::MAX + 1,
    ensures
        lo <= k < hi ==> range_total(m.insert(k, v), lo, hi) + count_of(m, k) == range_total(
            m,
            lo,
            hi,
        ) + v,
        !(lo <= k < hi) ==> range_total(m.insert(k, v), lo, hi) == range_total(m, lo, hi),
    decreases hi - lo,
{
    if lo < hi {
        lemma_range_total_insert(m, k, v, lo, hi - 1);
    }
}

pub proof fn lemma_range_total_ge(m: Map<i16, u64>, k: i16, lo: int, hi: int)
    requires
        i16::MIN <= lo <= k < hi <= i16::MAX + 1,
    ensures
        range_total(m, lo, hi) >= count_of(m, k),
    decreases hi - lo,
{
    if hi - 1 != k {
        lemma_range_total_ge(m, k, lo, hi - 1);
    }
}

pub proof fn lemma_range_total_merged(a: Map<i16, u64>, b: Map<i16, u64>, lo: int, hi: int)
    requires
        i16::MIN <= lo <= hi <= i16::MAX + 1,
    ensures
        range_total(merged(a, b), lo, hi) >= sat_add(range_total(a, lo, hi), range_total(b, lo, hi)),
    decreases hi - lo,
{
    if lo < hi {
        lemma_range_total_merged(a, b, lo, hi - 1);
    }
}

/// Adds one occurrence of `k`, held at `u64::MAX`.
pub fn bump(m: &mut HashMap<i16, u64>, k: i16)
    ensures
        final(m)@ == bumped(old(m)@, k),
        total_count(final(m)@) == sat_add(total_count(old(m)@), 1) || total_count(final(m)@)
            >= u64::MAX,
{
    let cur: u64 = match m.get(&k) {
        Some(v) => *v,
        None => 0,
    };
    let next = saturating_add(cur, 1);
    m.insert(k, next);
    proof {
        lemma_range_total_insert(old(m)@, k, next, i16::MIN as int, i16::MAX as int + 1);
        lemma_range_total_ge(final(m)@, k, i16::MIN as int, i16::MAX as int + 1);
    }
}

/// Adds every count of `other` into `acc`, held at `u64::MAX`.
pub fn merge_into(acc: &mut HashMap<i16, u64>, other: &HashMap<i16, u64>)
    ensures
        final(acc)@ == merged(old(acc)@, other@),
{
    let ghost start = acc@;
    let mut k: i32 = i16::MIN as i32;
    while k <= i16::MAX as i32
        invariant
            i16::MIN <= k <= i16::MAX + 1,
            forall|j: i16|
                #![trigger acc@.contains_key(j)]
                (j < k ==> (acc@.contains_key(j) <==> start.contains_key(j) || other@.contains_key(j)))
                && (j >= k ==> (acc@.contains_key(j) <==> start.contains_key(j))),
            forall|j: i16|
                #![trigger acc@[j]]
                acc@.contains_key(j) ==> (j < k ==> acc@[j] == sat_add(
                    count_of(start, j),
                    count_of(other@, j),
                )) && (j >= k ==> acc@[j] == start[j]),
        decreases i16::MAX + 1 - k,
    {
        let key = k as i16;
        match other.get(&key) {
            Some(v) => {
                let cur: u64 = match acc.get(&key) {
                    Some(c) => *c,
                    None => 0,
                };
                acc.insert(key, saturating_add(cur, *v));
            },
            None => {},
        }
        k = k + 1;
    }
    assert(acc@ =~= merged(start, other@)) by {
        assert forall|j: i16| #[trigger] acc@.contains_key(j) implies acc@[j] == merged(
            start,
            other@,
        )[j] by {}
    }
}

/// Sum of the counts whose key is at least `from`, held at `u64::MAX`.
pub fn count_at_least(m: &HashMap<i16, u64>, from: i16) -> (r: u64)
    ensures
        r == sat_add(range_total(m@, from as int, i16::MAX as int + 1), 0),
{
    let mut acc: u64 = 0;
    let mut k: i32 = from as i32;
    while k <= i16::MAX as i32
        invariant
            from <= k <= i16::MAX + 1,
            acc == sat_add(range_total(m@, from as int, k as int), 0),
        decreases i16::MAX + 1 - k,
    {
        let key = k as i16;
        match m.get(&key) {
            Some(v) => {
                acc = saturating_add(acc, *v);
            },
            None => {},
        }
        k = k + 1;
    }
    acc
}

/// The transport-error classes, kept under negative keys of a status histogram.
#[derive(Clone, Copy, Debug, PartialEq, Eq, Structural)]
pub enum ErrorKind {
    ConnectionFailed,
    TlsHandshakeFailed,
    WriteFailed,
    InvalidResponse,
    Timeout,
    Unknown,
}

pub open spec fn error_key(kind: ErrorKind) -> i16 {
    match kind {
        ErrorKind::ConnectionFailed => -1i16,
        ErrorKind::TlsHandshakeFailed => -2i16,
        ErrorKind::WriteFailed => -3i16,
        ErrorKind::InvalidResponse => -4i16,
        ErrorKind::Timeout => -5i16,
        ErrorKind::Unknown => -6i16,
    }
}

impl ErrorKind {
    /// The histogram key of this class.
    pub fn key(&self) -> (r: i16)
        ensures
            r == error_key(*self),
    {
        match self {
            ErrorKind::ConnectionFailed => -1,
            ErrorKind::TlsHandshakeFailed => -2,
            ErrorKind::WriteFailed => -3,
            ErrorKind::InvalidResponse => -4,
            ErrorKind::Timeout => -5,
            ErrorKind::Unknown => -6,
        }
    }
}

/// What one worker measured.
pub struct WorkerStats {
    /// Responses received in full.
    pub requests: u64,
    /// Body bytes of those responses, held at `u64::MAX`.
    pub bytes: u64,
    /// Latency of each response in microseconds, in order of completion.
    pub latencies: Vec<u128>,
    /// Status codes of the responses and transport errors by class.
    pub status_counts: HashMap<i16, u64>,
}

impl WorkerStats {
    /// One latency per response, and at least as many histogram entries as responses.
    pub open spec fn wf(&self) -> bool {
        &&& self.latencies@.len() == self.requests
        &&& total_count(self.status_counts@) >= self.requests
    }

    pub fn new() -> (s: WorkerStats)
        ensures
            s.wf(),
            s.requests == 0,
            s.bytes == 0,
            s.latencies@.len() == 0,
            s.status_counts@ == Map::<i16, u64>::empty(),
    {
        let s = WorkerStats {
            requests: 0,
            bytes: 0,
            latencies: Vec::new(),
            status_counts: HashMap::new(),
        };
        proof {
            assert(total_count(s.status_counts@) >= 0);
        }
        s
    }

    /// Counts one transport error of class `kind`.
    pub fn record_error(&mut self, kind: ErrorKind)
        requires
            old(self).wf(),
        ensures
            final(self).wf(),
            final(self).requests == old(self).requests,
            final(self).bytes == old(self).bytes,
            final(self).latencies@ == old(self).latencies@,
            final(self).status_counts@ == bumped(old(self).status_counts@, error_key(kind)),
    {
        let k = kind.key();
        bump(&mut self.status_counts, k);
    }

    /// Counts one complete response with histogram key `status`.
    pub fn record_response(&mut self, status: i16, body_bytes: u64, latency: u128)
        requires
            old(self).wf(),
        ensures
            final(self).wf(),
            final(self).requests == old(self).requests + 1,
            final(self).bytes == sat_add(old(self).bytes as nat, body_bytes as nat),
            final(self).latencies@ == old(self).latencies@.push(latency),
            final(self).status_counts@ == bumped(old(self).status_counts@, status),
    {
        self.latencies.push(latency);
        let n = self.latencies.len();
        self.requests = n as u64;
        self.bytes = saturating_add(self.bytes, body_bytes);
        bump(&mut self.status_counts, status);
    }
}

} // verus!
