//! The agent's decisions: accepting a fire order, ceasefire, shutdown, the
//! bearer-token check, and the counters of its report to the coordinator.
use std::collections::HashMap;
use vstd::prelude::*;
use crate::battle::{BattleParams, BattleSummary};
use crate::protocol::{
    AgentStats, ErrorCounts, FireRequest, FireResponse, DEFAULT_CONNECTIONS, DEFAULT_DURATION_SECS, DEFAULT_THREADS,
    DEFAULT_TIMEOUT_SECS,
};
use crate::stats::{count_at_least, count_of, range_total, sat_add, saturating_add};
use crate::text::{chars_of, push_str, string_from};

verus! {

pub open spec fn http_prefix() -> Seq<char> {
    seq!['h', 't', 't', 'p', ':', '/', '/']
}

pub open spec fn https_prefix() -> Seq<char> {
    seq!['h', 't', 't', 'p', 's', ':', '/', '/']
}

pub open spec fn method_get() -> Seq<char> {
    seq!['G', 'E', 'T']
}

/// Whether a target names the `http` or `https` scheme.
pub open spec fn valid_target(t: Seq<char>) -> bool {
    http_prefix().is_prefix_of(t) || https_prefix().is_prefix_of(t)
}

/// A header as the engine takes it: `name: value`.
pub open spec fn header_line(name: Seq<char>, value: Seq<char>) -> Seq<char> {
    name + seq![':', ' '] + value
}

/// The battle that a valid fire order asks for: the order's values, and the
/// defaults where it names none; each header written `name: value`.
pub open spec fn params_for(request: FireRequest, p: BattleParams) -> bool {
    &&& p.threads == (match request.t {
        Some(t) => t,
        None => DEFAULT_THREADS,
    })
    &&& p.connections == (match request.c {
        Some(c) => c,
        None => DEFAULT_CONNECTIONS,
    })
    &&& p.duration_secs == (match request.d {
        Some(d) => d,
        None => DEFAULT_DURATION_SECS,
    })
    &&& p.timeout_secs == (match request.timeout {
        Some(t) => t,
        None => DEFAULT_TIMEOUT_SECS,
    })
    &&& p.url@ == request.target@
    &&& p.method@ == (match request.method {
        Some(m) => m@,
        None => method_get(),
    })
    &&& p.body == request.body
    &&& (match request.headers {
        Some(hs) => p.headers@.len() == hs@.len() && forall|i: int|
            0 <= i < hs@.len() ==> (#[trigger] p.headers@[i])@ == header_line(
                hs@[i].0@,
                hs@[i].1@,
            ),
        None => p.headers@.len() == 0,
    })
}

/// Why an agent turned a fire order down.
#[derive(Debug, Clone, Copy, PartialEq, Eq, Structural)]
pub enum FireRejection {
    /// A battle is under way.
    AlreadyFiring,
    /// The target is not an `http://` or `https://` URL.
    InvalidTarget,
}

fn has_prefix(s: &Vec<char>, p: &Vec<char>) -> (r: bool)
    ensures
        r == p@.is_prefix_of(s@),
{
    if p.len() > s.len() {
        return false;
    }
    let mut i: usize = 0;
    while i < p.len()
        invariant
            p.len() <= s.len(),
            i <= p.len(),
            forall|k: int| 0 <= k < i ==> s@[k] == p@[k],
        decreases p.len() - i,
    {
        if s[i] != p[i] {
            return false;
        }
        i = i + 1;
    }
    assert(s@.subrange(0, p@.len() as int) =~= p@);
    true
}

/// Whether `target` starts with `http://` or `https://`.
pub fn is_valid_target(target: &str) -> (r: bool)
    ensures
        r == valid_target(target@),
{
    let t = chars_of(target);
    let http: Vec<char> = vec!['h', 't', 't', 'p', ':', '/', '/'];
    let https: Vec<char> = vec!['h', 't', 't', 'p', 's', ':', '/', '/'];
    assert(http@ =~= http_prefix());
    assert(https@ =~= https_prefix());
    has_prefix(&t, &http) || has_prefix(&t, &https)
}

/// The battle a fire order asks for, with the defaults filled in; refused
/// when the target is not an `http` or `https` URL.
pub fn battle_params(request: &FireRequest) -> (r: Result<BattleParams, FireRejection>)
    ensures
        !valid_target(request.target@) ==> r == Err::<BattleParams, FireRejection>(
            FireRejection::InvalidTarget,
        ),
        valid_target(request.target@) ==> (r matches Ok(p) && params_for(*request, p)),
{
    if !is_valid_target(request.target.as_str()) {
        return Err(FireRejection::InvalidTarget);
    }
    let mut headers: Vec<String> = Vec::new();
    match &request.headers {
        Some(hs) => {
            let mut i: usize = 0;
            while i < hs.len()
                invariant
                    i <= hs@.len(),
                    headers@.len() == i,
                    forall|k: int|
                        0 <= k < i ==> (#[trigger] headers@[k])@ == header_line(
                            hs@[k].0@,
                            hs@[k].1@,
                        ),
                decreases hs@.len() - i,
            {
                let mut line: Vec<char> = Vec::new();
                push_str(&mut line, hs[i].0.as_str());
                line.push(':');
                line.push(' ');
                push_str(&mut line, hs[i].1.as_str());
                assert(line@ =~= header_line(hs@[i as int].0@, hs@[i as int].1@));
                headers.push(string_from(&line));
                i = i + 1;
            }
        },
        None => {},
    }
    let method = match &request.method {
        Some(m) => m.clone(),
        None => {
            let g: Vec<char> = vec!['G', 'E', 'T'];
            assert(g@ =~= method_get());
            string_from(&g)
        },
    };
    Ok(
        BattleParams {
            threads: match request.t {
                Some(t) => t,
                None => DEFAULT_THREADS,
            },
            connections: match request.c {
                Some(c) => c,
                None => DEFAULT_CONNECTIONS,
            },
            duration_secs: match request.d {
                Some(d) => d,
                None => DEFAULT_DURATION_SECS,
            },
            timeout_secs: match request.timeout {
                Some(t) => t,
                None => DEFAULT_TIMEOUT_SECS,
            },
            url: request.target.clone(),
            method,
            headers,
            body: match &request.body {
                Some(b) => Some(b.clone()),
                None => None,
            },
        },
    )
}

/// Responses whose status code is 400 or above, held at `u64::MAX`.
pub fn non_success_requests(status_counts: &HashMap<i16, u64>) -> (r: u64)
    ensures
        r == sat_add(range_total(status_counts@, 400, i16::MAX as int + 1), 0),
{
    count_at_least(status_counts, 400)
}

fn count_or_zero(m: &HashMap<i16, u64>, k: i16) -> (r: u64)
    ensures
        r == count_of(m@, k),
{
    match m.get(&k) {
        Some(v) => *v,
        None => 0,
    }
}

/// The counters an agent reports after a battle: its requests, body bytes and
/// responses with a status of 400 or above, and its transport errors by kind:
/// failed connections and TLS handshakes as connect errors, failed writes as
/// write errors, invalid responses and other read failures as read errors,
/// and timeouts. Sums are held at `u64::MAX`.
pub fn report_counters(summary: &BattleSummary) -> (r: AgentStats)
    ensures
        r.total_requests == summary.requests,
        r.read == summary.bytes,
        r.non_success_requests == sat_add(range_total(summary.status_counts@, 400, i16::MAX as int + 1), 0),
        r.errors.connect == sat_add(count_of(summary.status_counts@, -1i16), count_of(summary.status_counts@, -2i16)),
        r.errors.write == count_of(summary.status_counts@, -3i16),
        r.errors.read == sat_add(count_of(summary.status_counts@, -4i16), count_of(summary.status_counts@, -6i16)),
        r.errors.timeout == count_of(summary.status_counts@, -5i16),
{
    let m = &summary.status_counts;
    AgentStats {
        total_requests: summary.requests,
        read: summary.bytes,
        non_success_requests: non_success_requests(m),
        errors: ErrorCounts {
            connect: saturating_add(count_or_zero(m, -1), count_or_zero(m, -2)),
            read: saturating_add(count_or_zero(m, -4), count_or_zero(m, -6)),
            write: count_or_zero(m, -3),
            timeout: count_or_zero(m, -5),
        },
    }
}

/// What an agent holds between commands.
pub struct AgentState {
    /// The id the coordinator handed out at check-in.
    pub hive_id: Option<String>,
    /// Whether a battle is under way.
    pub running: bool,
}

fn response(status: &str, message: &str) -> (r: FireResponse)
    ensures
        r.status@ == status@,
        r.message@ == message@,
{
    FireResponse { status: status.to_owned(), message: message.to_owned() }
}

impl AgentState {
    pub fn new() -> (s: AgentState)
        ensures
            s.hive_id is None,
            !s.running,
    {
        AgentState { hive_id: None, running: false }
    }

    /// Vets a fire order: refused while a battle runs, or for a bad target.
    pub fn check_fire(&self, request: &FireRequest) -> (r: Result<BattleParams, FireRejection>)
        ensures
            self.running ==> r == Err::<BattleParams, FireRejection>(FireRejection::AlreadyFiring),
            !self.running && !valid_target(request.target@) ==> r == Err::<
                BattleParams,
                FireRejection,
            >(FireRejection::InvalidTarget),
            !self.running && valid_target(request.target@) ==> (r matches Ok(p) && params_for(
                *request,
                p,
            )),
    {
        if self.running {
            return Err(FireRejection::AlreadyFiring);
        }
        battle_params(request)
    }

    /// A battle was launched.
    pub fn start_battle(&mut self)
        ensures
            final(self).running,
            final(self).hive_id == old(self).hive_id,
    {
        self.running = true;
    }

    /// The battle ended, by itself or after a ceasefire.
    pub fn battle_finished(&mut self)
        ensures
            !final(self).running,
            final(self).hive_id == old(self).hive_id,
    {
        self.running = false;
    }

    /// The id handed out at check-in.
    pub fn set_hive_id(&mut self, id: String)
        ensures
            final(self).hive_id == Some(id),
            final(self).running == old(self).running,
    {
        self.hive_id = Some(id);
    }

    /// Stops the battle under way; the engine sees it at its next tick.
    pub fn ceasefire(&mut self) -> (r: FireResponse)
        ensures
            !final(self).running,
            final(self).hive_id == old(self).hive_id,
            old(self).running ==> r.status@ == "200"@ && r.message@ == "Ok i stops"@,
            !old(self).running ==> r.status@ == "400"@ && r.message@ == "Was not firing 0__0"@,
    {
        if self.running {
            self.running = false;
            response("200", "Ok i stops")
        } else {
            response("400", "Was not firing 0__0")
        }
    }

    /// Whether the agent may exit: not while a battle runs. `Ok` means the
    /// process should exit once the answer is sent.
    pub fn die(&self) -> (r: Result<FireResponse, FireResponse>)
        ensures
            self.running ==> (r matches Err(e) && e.status@ == "400"@ && e.message@
                == "I'm already shooting cant die yet..."@),
            !self.running ==> (r matches Ok(o) && o.status@ == "200"@ && o.message@
                == "Goodbye cruel world!"@),
    {
        if self.running {
            Err(response("400", "I'm already shooting cant die yet..."))
        } else {
            Ok(response("200", "Goodbye cruel world!"))
        }
    }
}

/// What the token check decided about an inbound request.
#[derive(Debug, Clone, Copy, PartialEq, Eq, Structural)]
pub enum AuthDecision {
    /// The token matches.
    Allowed,
    /// No token is configured: every request passes.
    Open,
    /// A token is configured and the request carries none.
    Missing,
    /// The request carries a token that does not match.
    Invalid,
}

pub open spec fn bearer_prefix() -> Seq<char> {
    seq!['B', 'e', 'a', 'r', 'e', 'r', ' ']
}

/// A header value without a leading `Bearer `.
pub open spec fn strip_bearer(s: Seq<char>) -> Seq<char> {
    if bearer_prefix().is_prefix_of(s) {
        s.skip(7)
    } else {
        s
    }
}

/// The check of an inbound request against the configured token `expected`:
/// the `wwb-token` header is used when present, else `Authorization`, and a
/// leading `Bearer ` is ignored.
pub open spec fn auth_decision(
    expected: Option<Seq<char>>,
    wwb_token: Option<Seq<char>>,
    authorization: Option<Seq<char>>,
) -> AuthDecision {
    match expected {
        None => AuthDecision::Open,
        Some(e) => {
            let given = match wwb_token {
                Some(t) => Some(t),
                None => authorization,
            };
            match given {
                None => AuthDecision::Missing,
                Some(g) => if strip_bearer(g) == e {
                    AuthDecision::Allowed
                } else {
                    AuthDecision::Invalid
                },
            }
        },
    }
}

pub open spec fn opt_view(o: Option<&str>) -> Option<Seq<char>> {
    match o {
        Some(s) => Some(s@),
        None => None,
    }
}

fn seq_equal(a: &Vec<char>, lo: usize, b: &Vec<char>) -> (r: bool)
    requires
        lo <= a.len(),
    ensures
        r == (a@.skip(lo as int) == b@),
{
    if a.len() - lo != b.len() {
        assert(a@.skip(lo as int).len() != b@.len());
        return false;
    }
    let mut i: usize = 0;
    while i < b.len()
        invariant
            lo <= a.len(),
            a.len() - lo == b.len(),
            i <= b.len(),
            forall|k: int| 0 <= k < i ==> a@[lo + k] == b@[k],
        decreases b.len() - i,
    {
        if a[lo + i] != b[i] {
            assert(a@.skip(lo as int)[i as int] != b@[i as int]);
            return false;
        }
        i = i + 1;
    }
    assert(a@.skip(lo as int) =~= b@);
    true
}

/// Checks an inbound request's token headers against the configured token.
pub fn authorize(expected: Option<&str>, wwb_token: Option<&str>, authorization: Option<&str>) -> (r:
    AuthDecision)
    ensures
        r == auth_decision(opt_view(expected), opt_view(wwb_token), opt_view(authorization)),
{
    let e = match expected {
        None => {
            return AuthDecision::Open;
        },
        Some(e) => e,
    };
    let given = match wwb_token {
        Some(t) => t,
        None => match authorization {
            Some(a) => a,
            None => {
                return AuthDecision::Missing;
            },
        },
    };
    let g = chars_of(given);
    let want = chars_of(e);
    let bearer: Vec<char> = vec!['B', 'e', 'a', 'r', 'e', 'r', ' '];
    assert(bearer@ =~= bearer_prefix());
    let start: usize = if has_prefix(&g, &bearer) {
        7
    } else {
        0
    };
    assert(g@.skip(0) =~= g@);
    if seq_equal(&g, start, &want) {
        AuthDecision::Allowed
    } else {
        AuthDecision::Invalid
    }
}

} // verus!
