//! The coordinator's roster of agents: check-in, heartbeats and the sweep of
//! silent agents.
use vstd::prelude::*;
use crate::text::{decimal, lemma_decimal_injective, push_decimal, string_from};

verus! {

/// How long an agent stays online after its last heartbeat, in milliseconds.
pub const ONLINE_WINDOW_MS: u64 = 15000;

/// One registered agent.
#[derive(Debug, Clone)]
pub struct AgentRecord {
    pub ip: String,
    pub port: String,
    pub id: String,
    /// Time of the last heartbeat, in milliseconds since the epoch.
    pub last_heartbeat_ms: u64,
}

impl AgentRecord {
    /// A field-by-field copy.
    pub fn duplicate(&self) -> (r: AgentRecord)
        ensures
            r == *self,
    {
        AgentRecord {
            ip: self.ip.clone(),
            port: self.port.clone(),
            id: self.id.clone(),
            last_heartbeat_ms: self.last_heartbeat_ms,
        }
    }
}

/// The id handed to the `n`-th agent that checks in: `BuzzyBoi<n>`.
pub open spec fn agent_name(n: nat) -> Seq<char> {
    seq!['B', 'u', 'z', 'z', 'y', 'B', 'o', 'i'] + decimal(n)
}

pub proof fn lemma_agent_name_injective(n: nat, m: nat)
    requires
        agent_name(n) == agent_name(m),
    ensures
        n == m,
{
    assert(agent_name(n).skip(8) =~= decimal(n));
    assert(agent_name(m).skip(8) =~= decimal(m));
    lemma_decimal_injective(n, m);
}

/// Whether `a` is the agent listening at `ip` and `port`.
pub open spec fn at_address(a: AgentRecord, ip: Seq<char>, port: Seq<char>) -> bool {
    a.ip@ == ip && a.port@ == port
}

/// Whether an agent counts as online at time `now_ms`.
pub open spec fn is_online(a: AgentRecord, now_ms: u64) -> bool {
    now_ms < a.last_heartbeat_ms + ONLINE_WINDOW_MS
}

/// At most one record per address; every id is `BuzzyBoi<n>` for some `n`
/// below `id_count`, and no two records share one.
pub open spec fn records_wf(a: Seq<AgentRecord>, id_count: u32) -> bool {
    &&& forall|i: int, j: int|
        0 <= i < j < a.len() ==> !at_address(#[trigger] a[i], (#[trigger] a[j]).ip@, a[j].port@)
    &&& forall|i: int| 0 <= i < a.len() ==> issued_by(#[trigger] a[i], id_count)
    &&& forall|i: int, j: int| 0 <= i < j < a.len() ==> (#[trigger] a[i]).id@ != (#[trigger] a[j]).id@
}

/// Whether the id of `a` is one of the first `id_count` handed out.
pub open spec fn issued_by(a: AgentRecord, id_count: u32) -> bool {
    exists|n: nat| n < id_count && a.id@ == agent_name(n)
}

/// The effect of a check-in from `ip` and `port` at `now_ms` that answered `r`.
pub open spec fn checked_in(
    before: Roster,
    after: Roster,
    ip: Seq<char>,
    port: Seq<char>,
    now_ms: u64,
    r: Option<String>,
) -> bool {
    match first_match(before.agents@, ip, port) {
        Some(i) => {
            &&& r is Some
            &&& r->0@ == before.agents@[i].id@
            &&& after.id_count == before.id_count
            &&& after.agents@ == before.agents@.update(
                i,
                AgentRecord { last_heartbeat_ms: now_ms, ..before.agents@[i] },
            )
        },
        None => if before.id_count < u32::MAX {
            &&& r is Some
            &&& r->0@ == agent_name(before.id_count as nat)
            &&& after.id_count == before.id_count + 1
            &&& after.agents@.len() == before.agents@.len() + 1
            &&& after.agents@.drop_last() == before.agents@
            &&& after.agents@.last().ip@ == ip
            &&& after.agents@.last().port@ == port
            &&& after.agents@.last().id@ == r->0@
            &&& after.agents@.last().last_heartbeat_ms == now_ms
        } else {
            r is None && after == before
        },
    }
}

/// The effect of a heartbeat from `ip` and `port` at `now_ms` that answered `r`.
pub open spec fn heartbeat_taken(
    before: Roster,
    after: Roster,
    ip: Seq<char>,
    port: Seq<char>,
    now_ms: u64,
    r: bool,
) -> bool {
    &&& after.agents@.len() == before.agents@.len()
    &&& after.id_count == before.id_count
    &&& match first_match(before.agents@, ip, port) {
        Some(i) => r && after.agents@ == before.agents@.update(
            i,
            AgentRecord { last_heartbeat_ms: now_ms, ..before.agents@[i] },
        ),
        None => !r && after.agents@ == before.agents@,
    }
}

pub struct Roster {
    pub agents: Vec<AgentRecord>,
    /// Number of ids handed out so far.
    pub id_count: u32,
}

impl Roster {
    /// At most one record per address; every id was handed out by this
    /// roster and no two records share one.
    pub open spec fn wf(&self) -> bool {
        records_wf(self.agents@, self.id_count)
    }

    pub fn new() -> (r: Roster)
        ensures
            r.wf(),
            r.agents@.len() == 0,
            r.id_count == 0,
    {
        Roster { agents: Vec::new(), id_count: 0 }
    }

    pub fn len(&self) -> (r: usize)
        ensures
            r == self.agents@.len(),
    {
        self.agents.len()
    }

    /// Position of the agent at `ip` and `port`.
    pub fn find(&self, ip: &String, port: &String) -> (r: Option<usize>)
        ensures
            match r {
                Some(i) => i < self.agents@.len() && at_address(self.agents@[i as int], ip@, port@),
                None => forall|i: int|
                    0 <= i < self.agents@.len() ==> !at_address(
                        #[trigger] self.agents@[i],
                        ip@,
                        port@,
                    ),
            },
    {
        let mut i: usize = 0;
        while i < self.agents.len()
            invariant
                i <= self.agents@.len(),
                forall|k: int| 0 <= k < i ==> !at_address(#[trigger] self.agents@[k], ip@, port@),
            decreases self.agents@.len() - i,
        {
            if self.agents[i].ip == *ip && self.agents[i].port == *port {
                return Some(i);
            }
            i = i + 1;
        }
        None
    }

    /// Position of the agent with id `id`.
    pub fn find_by_id(&self, id: &String) -> (r: Option<usize>)
        ensures
            match r {
                Some(i) => i < self.agents@.len() && self.agents@[i as int].id@ == id@,
                None => forall|i: int|
                    0 <= i < self.agents@.len() ==> (#[trigger] self.agents@[i]).id@ != id@,
            },
    {
        let mut i: usize = 0;
        while i < self.agents.len()
            invariant
                i <= self.agents@.len(),
                forall|k: int| 0 <= k < i ==> (#[trigger] self.agents@[k]).id@ != id@,
            decreases self.agents@.len() - i,
        {
            if self.agents[i].id == *id {
                return Some(i);
            }
            i = i + 1;
        }
        None
    }

    /// A copy of every record, in order.
    pub fn snapshot(&self) -> (r: Vec<AgentRecord>)
        ensures
            r@ == self.agents@,
    {
        let mut r: Vec<AgentRecord> = Vec::new();
        let mut i: usize = 0;
        while i < self.agents.len()
            invariant
                i <= self.agents@.len(),
                r@ == self.agents@.take(i as int),
            decreases self.agents@.len() - i,
        {
            r.push(self.agents[i].duplicate());
            i = i + 1;
        }
        assert(self.agents@.take(self.agents@.len() as int) =~= self.agents@);
        r
    }

    /// A copy of every record online at `now_ms`, in order.
    pub fn online_snapshot(&self, now_ms: u64) -> (r: Vec<AgentRecord>)
        ensures
            r@ == self.agents@.filter(|a: AgentRecord| is_online(a, now_ms)),
    {
        let ghost pred = |a: AgentRecord| is_online(a, now_ms);
        let ghost o = self.agents@;
        let mut kept: Vec<AgentRecord> = Vec::new();
        let mut i: usize = 0;
        while i < self.agents.len()
            invariant
                self.agents@ == o,
                pred == (|a: AgentRecord| is_online(a, now_ms)),
                i <= o.len(),
                kept@ == o.take(i as int).filter(pred),
            decreases o.len() - i,
        {
            let a = &self.agents[i];
            proof {
                assert(o.take(i + 1) =~= o.take(i as int).push(o[i as int]));
                o.take(i as int).lemma_filter_push(o[i as int], pred);
            }
            if a.last_heartbeat_ms as u128 + ONLINE_WINDOW_MS as u128 > now_ms as u128 {
                kept.push(a.duplicate());
            }
            i = i + 1;
        }
        assert(o.take(o.len() as int) =~= o);
        kept
    }

    /// Sets the heartbeat of record `i`.
    fn touch(&mut self, i: usize, now_ms: u64)
        requires
            old(self).wf(),
            i < old(self).agents@.len(),
        ensures
            final(self).wf(),
            final(self).id_count == old(self).id_count,
            final(self).agents@ == old(self).agents@.update(
                i as int,
                AgentRecord { last_heartbeat_ms: now_ms, ..old(self).agents@[i as int] },
            ),
    {
        let mut rec = self.agents[i].duplicate();
        rec.last_heartbeat_ms = now_ms;
        self.agents.set(i, rec);
        proof {
            let a = self.agents@;
            let o = old(self).agents@;
            assert forall|j: int| 0 <= j < a.len() implies issued_by(
                #[trigger] a[j],
                self.id_count,
            ) by {
                assert(a[j].id@ == o[j].id@);
                assert(issued_by(o[j], self.id_count));
            }
            assert forall|x: int, y: int| 0 <= x < y < a.len() implies !at_address(
                #[trigger] a[x],
                (#[trigger] a[y]).ip@,
                a[y].port@,
            ) && a[x].id@ != a[y].id@ by {
                assert(a[x].ip@ == o[x].ip@ && a[x].port@ == o[x].port@ && a[x].id@ == o[x].id@);
                assert(a[y].ip@ == o[y].ip@ && a[y].port@ == o[y].port@ && a[y].id@ == o[y].id@);
            }
        }
    }

    /// Registers the agent at `ip` and `port`, or refreshes it when it is
    /// known. Returns its id: the known one, or `BuzzyBoi<n>` for the `n`-th
    /// new agent. `None` only when every id has been handed out.
    pub fn check_in(&mut self, ip: String, port: String, now_ms: u64) -> (r: Option<String>)
        requires
            old(self).wf(),
        ensures
            final(self).wf(),
            checked_in(*old(self), *final(self), ip@, port@, now_ms, r),
    {
        match self.find(&ip, &port) {
            Some(i) => {
                proof {
                    lemma_first_match_is(old(self).agents@, ip@, port@, i as int);
                }
                let id = self.agents[i].id.clone();
                self.touch(i, now_ms);
                Some(id)
            },
            None => {
                proof {
                    lemma_no_match(old(self).agents@, ip@, port@);
                }
                if self.id_count == u32::MAX {
                    return None;
                }
                let mut name: Vec<char> = vec!['B', 'u', 'z', 'z', 'y', 'B', 'o', 'i'];
                push_decimal(&mut name, self.id_count as u64);
                let id = string_from(&name);
                let ghost n = self.id_count as nat;
                let rec = AgentRecord {
                    ip,
                    port,
                    id: id.clone(),
                    last_heartbeat_ms: now_ms,
                };
                self.agents.push(rec);
                self.id_count = self.id_count + 1;
                proof {
                    let a = self.agents@;
                    let o = old(self).agents@;
                    assert(a.drop_last() =~= o);
                    assert forall|j: int| 0 <= j < a.len() implies issued_by(
                        #[trigger] a[j],
                        self.id_count,
                    ) by {
                        if j < o.len() {
                            assert(a[j] == o[j]);
                            assert(issued_by(o[j], old(self).id_count));
                        } else {
                            assert(a[j].id@ == agent_name(n));
                        }
                    }
                    assert forall|x: int, y: int| 0 <= x < y < a.len() implies !at_address(
                        #[trigger] a[x],
                        (#[trigger] a[y]).ip@,
                        a[y].port@,
                    ) && a[x].id@ != a[y].id@ by {
                        assert(a[x] == o[x]);
                        if y < o.len() {
                            assert(a[y] == o[y]);
                        } else {
                            assert(issued_by(o[x], old(self).id_count));
                            let m = choose|m: nat| m < n && o[x].id@ == agent_name(m);
                            if a[x].id@ == a[y].id@ {
                                lemma_agent_name_injective(m, n);
                            }
                        }
                    }
                }
                Some(id)
            },
        }
    }

    /// Refreshes the heartbeat of the agent at `ip` and `port`; false when
    /// there is no such agent. The number of records never changes.
    pub fn heartbeat(&mut self, ip: &String, port: &String, now_ms: u64) -> (r: bool)
        requires
            old(self).wf(),
        ensures
            final(self).wf(),
            heartbeat_taken(*old(self), *final(self), ip@, port@, now_ms, r),
    {
        match self.find(ip, port) {
            Some(i) => {
                proof {
                    lemma_first_match_is(old(self).agents@, ip@, port@, i as int);
                }
                self.touch(i, now_ms);
                true
            },
            None => {
                proof {
                    lemma_no_match(old(self).agents@, ip@, port@);
                }
                false
            },
        }
    }

    /// Marks the agent at `ip` and `port` as silent since the epoch, so that
    /// the next sweep drops it.
    pub fn mark_offline(&mut self, ip: &String, port: &String)
        requires
            old(self).wf(),
        ensures
            final(self).wf(),
            final(self).agents@.len() == old(self).agents@.len(),
            final(self).id_count == old(self).id_count,
            match first_match(old(self).agents@, ip@, port@) {
                Some(i) => final(self).agents@ == old(self).agents@.update(
                    i,
                    AgentRecord { last_heartbeat_ms: 0, ..old(self).agents@[i] },
                ),
                None => final(self).agents@ == old(self).agents@,
            },
    {
        let _ = self.heartbeat(ip, port, 0);
    }

    /// Drops every agent that is not online at `now_ms`, keeping the order of
    /// the others.
    pub fn remove_offline(&mut self, now_ms: u64)
        requires
            old(self).wf(),
        ensures
            final(self).wf(),
            final(self).id_count == old(self).id_count,
            final(self).agents@ == old(self).agents@.filter(|a: AgentRecord| is_online(a, now_ms)),
    {
        let ghost pred = |a: AgentRecord| is_online(a, now_ms);
        let ghost o = self.agents@;
        let ghost mut idx: Seq<int> = Seq::empty();
        let mut kept: Vec<AgentRecord> = Vec::new();
        let mut i: usize = 0;
        while i < self.agents.len()
            invariant
                self.agents@ == o,
                records_wf(o, self.id_count),
                pred == (|a: AgentRecord| is_online(a, now_ms)),
                i <= o.len(),
                kept@ == o.take(i as int).filter(pred),
                kept@.len() == idx.len(),
                forall|m: int| 0 <= m < idx.len() ==> 0 <= #[trigger] idx[m] < i && kept@[m] == o[idx[m]],
                forall|m1: int, m2: int| 0 <= m1 < m2 < idx.len() ==> #[trigger] idx[m1] < #[trigger] idx[m2],
            decreases o.len() - i,
        {
            let a = &self.agents[i];
            proof {
                assert(o.take(i + 1) =~= o.take(i as int).push(o[i as int]));
                o.take(i as int).lemma_filter_push(o[i as int], pred);
            }
            if a.last_heartbeat_ms as u128 + ONLINE_WINDOW_MS as u128 > now_ms as u128 {
                kept.push(a.duplicate());
                proof {
                    idx = idx.push(i as int);
                }
            }
            i = i + 1;
        }
        assert(o.take(o.len() as int) =~= o);
        assert(records_wf(kept@, self.id_count)) by {
            let k = kept@;
            assert forall|x: int, y: int| 0 <= x < y < k.len() implies !at_address(
                #[trigger] k[x],
                (#[trigger] k[y]).ip@,
                k[y].port@,
            ) by {
                let (ix, iy) = (idx[x], idx[y]);
                assert(ix < iy);
                assert(k[x] == o[ix] && k[y] == o[iy]);
            }
            assert forall|x: int, y: int| 0 <= x < y < k.len() implies (#[trigger] k[x]).id@ != (
            #[trigger] k[y]).id@ by {
                let (ix, iy) = (idx[x], idx[y]);
                assert(ix < iy);
                assert(k[x] == o[ix] && k[y] == o[iy]);
            }
            assert forall|m: int| 0 <= m < k.len() implies issued_by(
                #[trigger] k[m],
                self.id_count,
            ) by {
                let im = idx[m];
                assert(k[m] == o[im]);
            }
        }
        self.agents = kept;
    }

    /// Removes every record.
    pub fn clear(&mut self)
        requires
            old(self).wf(),
        ensures
            final(self).wf(),
            final(self).agents@.len() == 0,
            final(self).id_count == old(self).id_count,
    {
        self.agents = Vec::new();
    }
}

/// Position of the first record at an address.
pub open spec fn first_match_from(a: Seq<AgentRecord>, ip: Seq<char>, port: Seq<char>, i: int) -> Option<int>
    decreases a.len() - i,
{
    if i < 0 || i >= a.len() {
        None
    } else if at_address(a[i], ip, port) {
        Some(i)
    } else {
        first_match_from(a, ip, port, i + 1)
    }
}

/// Position of the first record at `ip` and `port`.
pub open spec fn first_match(a: Seq<AgentRecord>, ip: Seq<char>, port: Seq<char>) -> Option<int> {
    first_match_from(a, ip, port, 0)
}

proof fn lemma_first_match_is(a: Seq<AgentRecord>, ip: Seq<char>, port: Seq<char>, i: int)
    requires
        0 <= i < a.len(),
        at_address(a[i], ip, port),
        forall|k: int| 0 <= k < i ==> !at_address(#[trigger] a[k], ip, port),
    ensures
        first_match(a, ip, port) == Some(i),
{
    lemma_first_match_from(a, ip, port, 0, i);
}

proof fn lemma_first_match_from(a: Seq<AgentRecord>, ip: Seq<char>, port: Seq<char>, k: int, i: int)
    requires
        0 <= k <= i < a.len(),
        at_address(a[i], ip, port),
        forall|j: int| 0 <= j < i ==> !at_address(#[trigger] a[j], ip, port),
    ensures
        first_match_from(a, ip, port, k) == Some(i),
    decreases i - k,
{
    if k < i {
        lemma_first_match_from(a, ip, port, k + 1, i);
    }
}

proof fn lemma_no_match(a: Seq<AgentRecord>, ip: Seq<char>, port: Seq<char>)
    requires
        forall|j: int| 0 <= j < a.len() ==> !at_address(#[trigger] a[j], ip, port),
    ensures
        first_match(a, ip, port) is None,
{
    lemma_no_match_from(a, ip, port, 0);
}

proof fn lemma_no_match_from(a: Seq<AgentRecord>, ip: Seq<char>, port: Seq<char>, k: int)
    requires
        0 <= k,
        forall|j: int| 0 <= j < a.len() ==> !at_address(#[trigger] a[j], ip, port),
    ensures
        first_match_from(a, ip, port, k) is None,
    decreases a.len() - k,
{
    if k < a.len() {
        lemma_no_match_from(a, ip, port, k + 1);
    }
}

proof fn lemma_first_match_found(a: Seq<AgentRecord>, ip: Seq<char>, port: Seq<char>, k: int)
    requires
        0 <= k,
    ensures
        first_match_from(a, ip, port, k) matches Some(i) ==> k <= i < a.len() && at_address(
            a[i],
            ip,
            port,
        ) && forall|j: int| k <= j < i ==> !at_address(#[trigger] a[j], ip, port),
        first_match_from(a, ip, port, k) is None ==> forall|j: int|
            k <= j < a.len() ==> !at_address(#[trigger] a[j], ip, port),
    decreases a.len() - k,
{
    if k < a.len() && !at_address(a[k], ip, port) {
        lemma_first_match_found(a, ip, port, k + 1);
    }
}

/// The roster never holds two records for one address.
pub proof fn law_one_record_per_address(r: Roster)
    requires
        r.wf(),
    ensures
        forall|i: int, j: int|
            0 <= i < r.agents@.len() && 0 <= j < r.agents@.len() && i != j ==> !(
            #[trigger] r.agents@[i].ip@ == (#[trigger] r.agents@[j]).ip@ && r.agents@[i].port@
                == r.agents@[j].port@),
{
    assert forall|i: int, j: int|
        0 <= i < r.agents@.len() && 0 <= j < r.agents@.len() && i != j implies !(
        #[trigger] r.agents@[i].ip@ == (#[trigger] r.agents@[j]).ip@ && r.agents@[i].port@
            == r.agents@[j].port@) by {
        if i < j {
            assert(!at_address(r.agents@[i], r.agents@[j].ip@, r.agents@[j].port@));
        } else {
            assert(!at_address(r.agents@[j], r.agents@[i].ip@, r.agents@[i].port@));
        }
    }
}

/// After a check-in that was answered with an id, exactly one record is at
/// the caller's address, and the roster still holds one record per address.
pub proof fn law_check_in_one_record(
    r0: Roster,
    r1: Roster,
    ip: Seq<char>,
    port: Seq<char>,
    t: u64,
    id: Option<String>,
)
    requires
        r0.wf(),
        r1.wf(),
        checked_in(r0, r1, ip, port, t, id),
        id is Some,
    ensures
        exists|i: int| 0 <= i < r1.agents@.len() && at_address(#[trigger] r1.agents@[i], ip, port),
        forall|i: int, j: int|
            0 <= i < r1.agents@.len() && 0 <= j < r1.agents@.len() && at_address(
                #[trigger] r1.agents@[i],
                ip,
                port,
            ) && at_address(#[trigger] r1.agents@[j], ip, port) ==> i == j,
{
    let a0 = r0.agents@;
    let a1 = r1.agents@;
    lemma_first_match_found(a0, ip, port, 0);
    match first_match(a0, ip, port) {
        Some(i) => {
            assert(at_address(a1[i], ip, port));
        },
        None => {
            assert(at_address(a1[a0.len() as int], ip, port));
        },
    }
    assert forall|i: int, j: int|
        0 <= i < a1.len() && 0 <= j < a1.len() && at_address(#[trigger] a1[i], ip, port)
            && at_address(#[trigger] a1[j], ip, port) implies i == j by {
        if i < j {
            assert(!at_address(a1[i], a1[j].ip@, a1[j].port@));
        } else if j < i {
            assert(!at_address(a1[j], a1[i].ip@, a1[i].port@));
        }
    }
}

/// Checking in twice from one address hands out the same id both times.
pub proof fn law_check_in_same_id(
    r0: Roster,
    r1: Roster,
    r2: Roster,
    ip: Seq<char>,
    port: Seq<char>,
    t1: u64,
    t2: u64,
    id1: Option<String>,
    id2: Option<String>,
)
    requires
        r0.wf(),
        checked_in(r0, r1, ip, port, t1, id1),
        checked_in(r1, r2, ip, port, t2, id2),
        id1 is Some,
    ensures
        id2 is Some && id2->0@ == id1->0@,
{
    let a0 = r0.agents@;
    let a1 = r1.agents@;
    lemma_first_match_found(a0, ip, port, 0);
    match first_match(a0, ip, port) {
        Some(i) => {
            assert forall|j: int| 0 <= j < i implies !at_address(#[trigger] a1[j], ip, port) by {
                assert(a1[j] == a0[j]);
            }
            lemma_first_match_is(a1, ip, port, i);
        },
        None => {
            let n = a0.len() as int;
            assert forall|j: int| 0 <= j < n implies !at_address(#[trigger] a1[j], ip, port) by {
                assert(a1[j] == a1.drop_last()[j]);
            }
            lemma_first_match_is(a1, ip, port, n);
        },
    }
}

/// Heartbeats, repeated from any addresses, never change the number of records.
pub proof fn law_heartbeats_keep_size(
    r0: Roster,
    r1: Roster,
    r2: Roster,
    ip1: Seq<char>,
    port1: Seq<char>,
    ip2: Seq<char>,
    port2: Seq<char>,
    t1: u64,
    t2: u64,
    b1: bool,
    b2: bool,
)
    requires
        heartbeat_taken(r0, r1, ip1, port1, t1, b1),
        heartbeat_taken(r1, r2, ip2, port2, t2, b2),
    ensures
        r2.agents@.len() == r0.agents@.len(),
{
}

} // verus!
