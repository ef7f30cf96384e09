//! The coordinator: one battle at a time over the roster's agents, and the
//! aggregate report of what the agents sent back.
use vstd::prelude::*;
use crate::protocol::{
    AgentStats, ErrorCounts, FireRequest, DEFAULT_CONNECTIONS, DEFAULT_DURATION_SECS,
    DEFAULT_THREADS, DEFAULT_TIMEOUT_SECS,
};
use crate::roster::{is_online, AgentRecord, Roster};
use crate::stats::{sat_add, saturating_add};

verus! {

/// Why the coordinator turned a request down.
#[derive(Debug, Clone, Copy, PartialEq, Eq, Structural)]
pub enum HiveError {
    /// A battle is under way.
    AlreadyRunning,
    /// The roster is empty.
    NoAgents,
    /// A report came while no battle runs.
    NotRunning,
    /// A report named an id that is not on the roster.
    AgentNotFound,
    /// Ceasefire while no battle runs.
    AlreadyIdle,
    /// The report was asked for while the battle runs.
    StillRunning,
    /// No battle has been started yet.
    NoReport,
}

impl HiveError {
    /// The HTTP status that carries this refusal.
    pub fn http_status(&self) -> (r: u16)
        ensures
            r == (if *self == HiveError::NotRunning || *self == HiveError::AgentNotFound {
                412u16
            } else {
                400u16
            }),
    {
        match self {
            HiveError::NotRunning => 412,
            HiveError::AgentNotFound => 412,
            _ => 400,
        }
    }
}

/// Whether an agent's report arrived, or its failure.
#[derive(Debug, Clone, Copy, PartialEq, Eq, Structural)]
pub enum ReportOutcome {
    Complete,
    Failed,
}

/// One agent's entry in the aggregate report.
#[derive(Debug, Clone)]
pub struct AgentReport {
    pub agent: AgentRecord,
    pub outcome: ReportOutcome,
    pub stats: Option<AgentStats>,
    pub error: Option<String>,
}

/// The aggregate report of one battle.
#[derive(Debug, Clone)]
pub struct HiveReport {
    pub target: String,
    pub threads: u32,
    pub concurrency: u32,
    pub duration: u32,
    pub timeout: u32,
    /// Start of the battle, in milliseconds since the epoch.
    pub start_ms: u64,
    /// Agents' entries in order of arrival.
    pub reports: Vec<AgentReport>,
    pub completed: usize,
    pub failed: usize,
    /// The sums below are held at `u64::MAX`.
    pub total_requests: u64,
    pub read: u64,
    pub non_success_requests: u64,
    pub errors: ErrorCounts,
}

/// What the coordinator knows and does.
pub struct Hive {
    pub roster: Roster,
    pub running: bool,
    /// Agents that reported, with success or failure, in this battle.
    pub done_count: usize,
    /// Agents that were sent the order to fire.
    pub expected_count: usize,
    pub run_started_ms: u64,
    pub duration_secs: u32,
    /// Number of the current battle; a completion timer names the battle it
    /// was set for, and is compared for equality only.
    pub battle: u64,
    pub report: Option<HiveReport>,
    /// Whether the current battle's final report was produced.
    pub report_generated: bool,
}

pub open spec fn sat_errors(a: ErrorCounts, b: ErrorCounts) -> ErrorCounts {
    ErrorCounts {
        connect: sat_add(a.connect as nat, b.connect as nat),
        read: sat_add(a.read as nat, b.read as nat),
        write: sat_add(a.write as nat, b.write as nat),
        timeout: sat_add(a.timeout as nat, b.timeout as nat),
    }
}

/// The report after one more agent's counters arrived.
pub open spec fn with_stats(r: HiveReport, s: AgentStats) -> HiveReport {
    HiveReport {
        completed: (r.completed + 1) as usize,
        total_requests: sat_add(r.total_requests as nat, s.total_requests as nat),
        read: sat_add(r.read as nat, s.read as nat),
        non_success_requests: sat_add(r.non_success_requests as nat, s.non_success_requests as nat),
        errors: sat_errors(r.errors, s.errors),
        ..r
    }
}

/// The effect of ending the battle and producing its final report:
/// `generated` tells whether the report is produced now, which happens once
/// per battle.
pub open spec fn finalizes(before: Hive, after: Hive, generated: bool) -> bool {
    &&& generated == !before.report_generated
    &&& after == Hive { report_generated: true, running: false, ..before }
}

/// The agents of the roster that are online at `now_ms`, in order.
pub open spec fn online_agents(r: Roster, now_ms: u64) -> Seq<AgentRecord> {
    r.agents@.filter(|a: AgentRecord| is_online(a, now_ms))
}

/// The answer to `/hive/status/done`: idle or not.
pub open spec fn is_done(h: Hive) -> bool {
    !h.running
}

fn add_errors(a: ErrorCounts, b: ErrorCounts) -> (r: ErrorCounts)
    ensures
        r == sat_errors(a, b),
{
    ErrorCounts {
        connect: saturating_add(a.connect, b.connect),
        read: saturating_add(a.read, b.read),
        write: saturating_add(a.write, b.write),
        timeout: saturating_add(a.timeout, b.timeout),
    }
}

impl Hive {
    pub open spec fn wf(&self) -> bool {
        &&& self.roster.wf()
        &&& self.done_count <= self.expected_count
        &&& self.running ==> self.report is Some && self.done_count < self.expected_count
            && !self.report_generated
        &&& self.report matches Some(r) ==> r.completed + r.failed == self.done_count
    }

    pub fn new() -> (h: Hive)
        ensures
            h.wf(),
            !h.running,
            h.report is None,
            h.roster.agents@.len() == 0,
    {
        Hive {
            roster: Roster::new(),
            running: false,
            done_count: 0,
            expected_count: 0,
            run_started_ms: 0,
            duration_secs: 0,
            battle: 0,
            report: None,
            report_generated: false,
        }
    }

    /// Ends the current battle and produces its final report unless it was
    /// produced already; tells whether it was produced now.
    pub fn finalize(&mut self) -> (r: bool)
        requires
            old(self).wf(),
        ensures
            final(self).wf(),
            finalizes(*old(self), *final(self), r),
    {
        let r = !self.report_generated;
        self.report_generated = true;
        self.running = false;
        r
    }

    /// Starts a battle at `now_ms` against the agents online then; refused
    /// while a battle runs or when no agent is online. Returns the agents to
    /// send `request` to.
    pub fn poke(&mut self, request: &FireRequest, now_ms: u64) -> (r: Result<
        Vec<AgentRecord>,
        HiveError,
    >)
        requires
            old(self).wf(),
        ensures
            final(self).wf(),
            old(self).running ==> r == Err::<Vec<AgentRecord>, HiveError>(HiveError::AlreadyRunning)
                && *final(self) == *old(self),
            !old(self).running && online_agents(old(self).roster, now_ms).len() == 0 ==> r == Err::<
                Vec<AgentRecord>,
                HiveError,
            >(HiveError::NoAgents) && *final(self) == *old(self),
            !old(self).running && online_agents(old(self).roster, now_ms).len() > 0 ==> {
                &&& r is Ok
                &&& r->Ok_0@ == online_agents(old(self).roster, now_ms)
                &&& final(self).roster == old(self).roster
                &&& final(self).running
                &&& !final(self).report_generated
                &&& final(self).done_count == 0
                &&& final(self).expected_count == online_agents(old(self).roster, now_ms).len()
                &&& final(self).run_started_ms == now_ms
                &&& final(self).duration_secs == (match request.d {
                    Some(d) => d,
                    None => DEFAULT_DURATION_SECS,
                })
                &&& final(self).battle != old(self).battle
                &&& final(self).report matches Some(rep) && {
                    &&& rep.target@ == request.target@
                    &&& rep.threads == (match request.t {
                        Some(t) => t,
                        None => DEFAULT_THREADS,
                    })
                    &&& rep.concurrency == (match request.c {
                        Some(c) => c,
                        None => DEFAULT_CONNECTIONS,
                    })
                    &&& rep.duration == final(self).duration_secs
                    &&& rep.timeout == (match request.timeout {
                        Some(t) => t,
                        None => DEFAULT_TIMEOUT_SECS,
                    })
                    &&& rep.start_ms == now_ms
                    &&& rep.reports@.len() == 0
                    &&& rep.completed == 0 && rep.failed == 0
                    &&& rep.total_requests == 0 && rep.read == 0 && rep.non_success_requests == 0
                    &&& rep.errors == ErrorCounts { connect: 0, read: 0, write: 0, timeout: 0 }
                }
            },
    {
        if self.running {
            return Err(HiveError::AlreadyRunning);
        }
        let agents = self.roster.online_snapshot(now_ms);
        if agents.len() == 0 {
            return Err(HiveError::NoAgents);
        }
        let duration = match request.d {
            Some(d) => d,
            None => DEFAULT_DURATION_SECS,
        };
        self.running = true;
        self.done_count = 0;
        self.expected_count = agents.len();
        self.run_started_ms = now_ms;
        self.duration_secs = duration;
        self.report_generated = false;
        self.battle = if self.battle == u64::MAX {
            0
        } else {
            self.battle + 1
        };
        self.report = Some(
            HiveReport {
                target: request.target.clone(),
                threads: match request.t {
                    Some(t) => t,
                    None => DEFAULT_THREADS,
                },
                concurrency: match request.c {
                    Some(c) => c,
                    None => DEFAULT_CONNECTIONS,
                },
                duration,
                timeout: match request.timeout {
                    Some(t) => t,
                    None => DEFAULT_TIMEOUT_SECS,
                },
                start_ms: now_ms,
                reports: Vec::new(),
                completed: 0,
                failed: 0,
                total_requests: 0,
                read: 0,
                non_success_requests: 0,
                errors: ErrorCounts { connect: 0, read: 0, write: 0, timeout: 0 },
            },
        );
        Ok(agents)
    }

    /// Counts one more agent as done; when all have reported, the battle
    /// stops and its final report is produced. Tells whether it was.
    fn agent_done(&mut self) -> (r: bool)
        requires
            old(self).running,
            old(self).done_count < old(self).expected_count,
        ensures
            final(self).done_count == old(self).done_count + 1,
            final(self).expected_count == old(self).expected_count,
            final(self).roster == old(self).roster,
            final(self).report == old(self).report,
            final(self).battle == old(self).battle,
            final(self).run_started_ms == old(self).run_started_ms,
            final(self).duration_secs == old(self).duration_secs,
            final(self).done_count >= final(self).expected_count ==> !final(self).running
                && final(self).report_generated && r == !old(self).report_generated,
            final(self).done_count < final(self).expected_count ==> final(self).running && !r
                && final(self).report_generated == old(self).report_generated,
    {
        self.done_count = self.done_count + 1;
        if self.done_count >= self.expected_count {
            self.running = false;
            let r = !self.report_generated;
            self.report_generated = true;
            r
        } else {
            false
        }
    }

    /// Takes in the counters that agent `id` reports. Tells whether the final
    /// report was produced by this call.
    pub fn report_in(&mut self, id: &String, stats: AgentStats) -> (r: Result<bool, HiveError>)
        requires
            old(self).wf(),
        ensures
            final(self).wf(),
            !old(self).running ==> r == Err::<bool, HiveError>(HiveError::NotRunning) && *final(self) == *old(self),
            old(self).running && (forall|i: int|
                0 <= i < old(self).roster.agents@.len() ==> (
                #[trigger] old(self).roster.agents@[i]).id@ != id@) ==> r == Err::<
                bool,
                HiveError,
            >(HiveError::AgentNotFound) && *final(self) == *old(self),
            old(self).running && (exists|i: int|
                0 <= i < old(self).roster.agents@.len() && (
                #[trigger] old(self).roster.agents@[i]).id@ == id@) ==> r is Ok,
            r is Ok ==> {
                &&& old(self).running
                &&& final(self).roster == old(self).roster
                &&& final(self).done_count == old(self).done_count + 1
                &&& final(self).expected_count == old(self).expected_count
                &&& final(self).battle == old(self).battle
                &&& final(self).run_started_ms == old(self).run_started_ms
                &&& final(self).duration_secs == old(self).duration_secs
                &&& final(self).report matches Some(after) && old(self).report matches Some(
                    before,
                ) && {
                    &&& after.reports@.len() == before.reports@.len() + 1
                    &&& after.reports@.drop_last() == before.reports@
                    &&& exists|i: int|
                        0 <= i < old(self).roster.agents@.len() && (
                        #[trigger] old(self).roster.agents@[i]).id@ == id@
                            && after.reports@.last().agent == old(self).roster.agents@[i]
                    &&& after.reports@.last().outcome == ReportOutcome::Complete
                    &&& after.reports@.last().stats == Some(stats)
                    &&& after.reports@.last().error is None
                    &&& after == (HiveReport { reports: after.reports, ..with_stats(before, stats) })
                }
                &&& final(self).running <==> final(self).done_count < final(self).expected_count
                &&& !final(self).running ==> final(self).report_generated && r->Ok_0
                    == !old(self).report_generated
                &&& final(self).running ==> !r->Ok_0 && final(self).report_generated
                    == old(self).report_generated
            },
    {
        if !self.running {
            return Err(HiveError::NotRunning);
        }
        let found = self.roster.find_by_id(id);
        let i = match found {
            Some(i) => i,
            None => {
                return Err(HiveError::AgentNotFound);
            },
        };
        let agent = self.roster.agents[i].duplicate();
        let mut report = self.report.take().unwrap();
        report.completed = report.completed + 1;
        report.total_requests = saturating_add(report.total_requests, stats.total_requests);
        report.read = saturating_add(report.read, stats.read);
        report.non_success_requests = saturating_add(
            report.non_success_requests,
            stats.non_success_requests,
        );
        report.errors = add_errors(report.errors, stats.errors);
        report.reports.push(
            AgentReport { agent, outcome: ReportOutcome::Complete, stats: Some(stats), error: None },
        );
        self.report = Some(report);
        let r = self.agent_done();
        Ok(r)
    }

    /// Takes in the failure that agent `id` reports. Tells whether the final
    /// report was produced by this call.
    pub fn report_failed(&mut self, id: &String, error: String) -> (r: Result<bool, HiveError>)
        requires
            old(self).wf(),
        ensures
            final(self).wf(),
            !old(self).running ==> r == Err::<bool, HiveError>(HiveError::NotRunning) && *final(self) == *old(self),
            old(self).running && (forall|i: int|
                0 <= i < old(self).roster.agents@.len() ==> (
                #[trigger] old(self).roster.agents@[i]).id@ != id@) ==> r == Err::<
                bool,
                HiveError,
            >(HiveError::AgentNotFound) && *final(self) == *old(self),
            old(self).running && (exists|i: int|
                0 <= i < old(self).roster.agents@.len() && (
                #[trigger] old(self).roster.agents@[i]).id@ == id@) ==> r is Ok,
            r is Ok ==> {
                &&& old(self).running
                &&& final(self).roster == old(self).roster
                &&& final(self).done_count == old(self).done_count + 1
                &&& final(self).expected_count == old(self).expected_count
                &&& final(self).battle == old(self).battle
                &&& final(self).run_started_ms == old(self).run_started_ms
                &&& final(self).duration_secs == old(self).duration_secs
                &&& final(self).report matches Some(after) && old(self).report matches Some(
                    before,
                ) && {
                    &&& after.reports@.len() == before.reports@.len() + 1
                    &&& after.reports@.drop_last() == before.reports@
                    &&& exists|i: int|
                        0 <= i < old(self).roster.agents@.len() && (
                        #[trigger] old(self).roster.agents@[i]).id@ == id@
                            && after.reports@.last().agent == old(self).roster.agents@[i]
                    &&& after.reports@.last().outcome == ReportOutcome::Failed
                    &&& after.reports@.last().stats is None
                    &&& after.reports@.last().error == Some(error)
                    &&& after == (HiveReport {
                        reports: after.reports,
                        failed: (before.failed + 1) as usize,
                        ..before
                    })
                }
                &&& final(self).running <==> final(self).done_count < final(self).expected_count
                &&& !final(self).running ==> final(self).report_generated && r->Ok_0
                    == !old(self).report_generated
                &&& final(self).running ==> !r->Ok_0 && final(self).report_generated
                    == old(self).report_generated
            },
    {
        if !self.running {
            return Err(HiveError::NotRunning);
        }
        let found = self.roster.find_by_id(id);
        let i = match found {
            Some(i) => i,
            None => {
                return Err(HiveError::AgentNotFound);
            },
        };
        let agent = self.roster.agents[i].duplicate();
        let mut report = self.report.take().unwrap();
        report.failed = report.failed + 1;
        report.reports.push(
            AgentReport { agent, outcome: ReportOutcome::Failed, stats: None, error: Some(error) },
        );
        self.report = Some(report);
        let r = self.agent_done();
        Ok(r)
    }

    /// The completion timer of battle `battle` went off (its duration plus a
    /// grace period after the start): that battle stops and its final report
    /// is produced, with whatever arrived. A timer of an earlier battle does
    /// nothing. Tells whether the report was produced now.
    pub fn on_timeout(&mut self, battle: u64) -> (r: bool)
        requires
            old(self).wf(),
        ensures
            final(self).wf(),
            battle != old(self).battle ==> !r && *final(self) == *old(self),
            battle == old(self).battle ==> finalizes(*old(self), *final(self), r),
    {
        if battle != self.battle {
            return false;
        }
        self.finalize()
    }

    /// Stops the battle under way. Returns the agents to send the ceasefire to.
    pub fn ceasefire(&mut self) -> (r: Result<Vec<AgentRecord>, HiveError>)
        requires
            old(self).wf(),
        ensures
            final(self).wf(),
            !old(self).running ==> r == Err::<Vec<AgentRecord>, HiveError>(HiveError::AlreadyIdle)
                && *final(self) == *old(self),
            old(self).running ==> r is Ok && r->Ok_0@ == old(self).roster.agents@ && *final(self)
                == (Hive { running: false, ..*old(self) }),
    {
        if !self.running {
            return Err(HiveError::AlreadyIdle);
        }
        let agents = self.roster.snapshot();
        self.running = false;
        Ok(agents)
    }

    /// Whether the coordinator is idle: `/hive/status/done` answers "done"
    /// exactly then.
    pub fn status_done(&self) -> (r: Result<(), HiveError>)
        ensures
            is_done(*self) ==> r is Ok,
            !is_done(*self) ==> r == Err::<(), HiveError>(HiveError::StillRunning),
    {
        if self.running {
            Err(HiveError::StillRunning)
        } else {
            Ok(())
        }
    }

    /// The aggregate report, once the battle is over.
    pub fn status_report(&self) -> (r: Result<&HiveReport, HiveError>)
        ensures
            self.running ==> r == Err::<&HiveReport, HiveError>(HiveError::StillRunning),
            !self.running && self.report is None ==> r == Err::<&HiveReport, HiveError>(
                HiveError::NoReport,
            ),
            !self.running && self.report is Some ==> r is Ok && *r->Ok_0 == self.report->0,
    {
        if self.running {
            return Err(HiveError::StillRunning);
        }
        match &self.report {
            Some(rep) => Ok(rep),
            None => Err(HiveError::NoReport),
        }
    }

    /// Shuts the roster down: returns every agent, to be told to exit, and
    /// empties the roster.
    pub fn torch(&mut self) -> (r: Vec<AgentRecord>)
        requires
            old(self).wf(),
        ensures
            final(self).wf(),
            r@ == old(self).roster.agents@,
            final(self).roster.agents@.len() == 0,
            final(self).running == old(self).running,
            final(self).report == old(self).report,
    {
        let agents = self.roster.snapshot();
        self.roster.clear();
        agents
    }

    /// The agents to probe with `/boop`, unless a battle runs or there is none.
    pub fn boop_targets(&self) -> (r: Result<Vec<AgentRecord>, HiveError>)
        ensures
            self.running ==> r == Err::<Vec<AgentRecord>, HiveError>(HiveError::AlreadyRunning),
            !self.running && self.roster.agents@.len() == 0 ==> r == Err::<
                Vec<AgentRecord>,
                HiveError,
            >(HiveError::NoAgents),
            !self.running && self.roster.agents@.len() > 0 ==> r is Ok && r->Ok_0@
                == self.roster.agents@,
    {
        if self.running {
            return Err(HiveError::AlreadyRunning);
        }
        if self.roster.len() == 0 {
            return Err(HiveError::NoAgents);
        }
        Ok(self.roster.snapshot())
    }
}

/// Progress of a running battle.
#[derive(Debug, Clone, Copy, PartialEq, Eq, Structural)]
pub struct Progress {
    /// Elapsed share of the duration, in percent, rounded to nearest and at most 100.
    pub percent: u64,
    /// Whole seconds left.
    pub eta_secs: u64,
}

pub open spec fn elapsed_ms(started_ms: u64, now_ms: u64) -> nat {
    if now_ms >= started_ms {
        (now_ms - started_ms) as nat
    } else {
        0
    }
}

/// Percent done: `round(100 * elapsed / duration)`, at most 100, and zero
/// for a zero duration.
pub open spec fn percent_done(elapsed: nat, duration_secs: nat) -> nat {
    if duration_secs == 0 {
        0
    } else {
        let p = ((200 * elapsed + duration_secs * 1000) / (2 * duration_secs * 1000)) as nat;
        if p > 100 {
            100
        } else {
            p
        }
    }
}

/// Whole seconds left until the duration is over.
pub open spec fn seconds_left(elapsed: nat, duration_secs: nat) -> nat {
    if duration_secs * 1000 > elapsed {
        ((duration_secs * 1000 - elapsed) / 1000) as nat
    } else {
        0
    }
}

/// How far a battle of `duration_secs` seconds started at `started_ms` is at `now_ms`.
pub fn progress(started_ms: u64, now_ms: u64, duration_secs: u32) -> (r: Progress)
    ensures
        r.percent == percent_done(elapsed_ms(started_ms, now_ms), duration_secs as nat),
        r.eta_secs == seconds_left(elapsed_ms(started_ms, now_ms), duration_secs as nat),
{
    let elapsed: u64 = if now_ms >= started_ms {
        now_ms - started_ms
    } else {
        0
    };
    let d_ms: u64 = duration_secs as u64 * 1000;
    let percent: u64 = if duration_secs == 0 {
        0
    } else {
        let num: u128 = 200 * (elapsed as u128) + d_ms as u128;
        let den: u128 = 2 * (d_ms as u128);
        assert(num / den <= u64::MAX) by (nonlinear_arith)
            requires
                den >= 2000,
                num <= 200 * (u64::MAX as u128) + u64::MAX,
        ;
        let p = (num / den) as u64;
        if p > 100 {
            100
        } else {
            p
        }
    };
    let eta: u64 = if d_ms > elapsed {
        (d_ms - elapsed) / 1000
    } else {
        0
    };
    Progress { percent, eta_secs: eta }
}

/// The final report is produced once per battle: after a poke, the first
/// attempt to produce it succeeds and every later one is refused.
pub proof fn law_report_produced_once(h0: Hive, h1: Hive, h2: Hive, r1: bool, r2: bool)
    requires
        !h0.report_generated,
        finalizes(h0, h1, r1),
        finalizes(h1, h2, r2),
    ensures
        r1,
        !r2,
        h2.report_generated,
{
}

/// Once a battle has been ended and its report produced, `/hive/status/done`
/// answers "done"; the call changes nothing, so asking again answers "done"
/// again.
pub proof fn law_done_after_battle(h0: Hive, h1: Hive, r: bool)
    requires
        finalizes(h0, h1, r),
    ensures
        is_done(h1),
        !h1.running,
{
}

/// An agent that stays silent does not hold the battle up: when the
/// completion timer of the running battle fires before every agent has
/// reported, the battle stops and the partial report is produced now, with
/// fewer entries than agents.
pub proof fn law_timeout_finalizes_partial(h0: Hive, h1: Hive, r: bool)
    requires
        h0.wf(),
        h0.running,
        finalizes(h0, h1, r),
    ensures
        r,
        !h1.running,
        h1.report_generated,
        h1.report matches Some(rep) && rep.completed + rep.failed == h1.done_count
            && h1.done_count < h1.expected_count,
{
}

} // verus!
