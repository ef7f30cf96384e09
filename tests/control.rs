use std::collections::HashMap;
use wasps_with_bazookas::agent::{
    authorize, battle_params, is_valid_target, non_success_requests, report_counters, AgentState,
    AuthDecision, FireRejection,
};
use wasps_with_bazookas::battle::summarize;
use wasps_with_bazookas::hive::{progress, Hive, HiveError, ReportOutcome};
use wasps_with_bazookas::protocol::{AgentStats, ErrorCounts, FireRequest};
use wasps_with_bazookas::roster::Roster;
use wasps_with_bazookas::stats::WorkerStats;

fn fire(target: &str) -> FireRequest {
    FireRequest {
        target: target.to_string(),
        t: None,
        c: None,
        d: None,
        timeout: None,
        method: None,
        headers: None,
        body: None,
    }
}

fn s(x: &str) -> String {
    x.to_string()
}

fn stats(total: u64, non_success: u64) -> AgentStats {
    AgentStats {
        total_requests: total,
        read: 100,
        non_success_requests: non_success,
        errors: ErrorCounts { connect: 1, read: 0, write: 2, timeout: 0 },
    }
}

fn hive_with(ports: &[&str]) -> (Hive, Vec<String>) {
    let mut h = Hive::new();
    let mut ids = Vec::new();
    for p in ports {
        ids.push(h.roster.check_in(s("10.0.0.1"), s(p), 1_000).unwrap());
    }
    (h, ids)
}

#[test]
fn check_in_hands_out_numbered_ids() {
    let mut r = Roster::new();
    assert_eq!(r.check_in(s("10.0.0.1"), s("3000"), 5), Some(s("BuzzyBoi0")));
    assert_eq!(r.check_in(s("10.0.0.2"), s("3000"), 5), Some(s("BuzzyBoi1")));
    assert_eq!(r.check_in(s("10.0.0.1"), s("3001"), 5), Some(s("BuzzyBoi2")));
    assert_eq!(r.len(), 3);
    assert_eq!(r.id_count, 3);
}

#[test]
fn repeated_check_in_keeps_id() {
    let mut r = Roster::new();
    let first = r.check_in(s("10.0.0.1"), s("3000"), 5);
    let second = r.check_in(s("10.0.0.1"), s("3000"), 9);
    assert_eq!(first, second);
    assert_eq!(r.len(), 1);
    assert_eq!(r.agents[0].last_heartbeat_ms, 9);
}

#[test]
fn one_record_per_address() {
    let mut r = Roster::new();
    for i in 0..5u64 {
        r.check_in(s("10.0.0.1"), s("3000"), i);
        r.check_in(s("10.0.0.1"), s("3001"), i);
    }
    assert_eq!(r.len(), 2);
}

#[test]
fn exhausted_ids_refuse_new_agents() {
    let mut r = Roster::new();
    r.id_count = u32::MAX;
    assert_eq!(r.check_in(s("10.0.0.1"), s("3000"), 5), None);
    assert_eq!(r.len(), 0);
}

#[test]
fn heartbeats_keep_roster_size() {
    let mut r = Roster::new();
    r.check_in(s("10.0.0.1"), s("3000"), 5);
    assert!(r.heartbeat(&s("10.0.0.1"), &s("3000"), 7));
    assert!(r.heartbeat(&s("10.0.0.1"), &s("3000"), 8));
    assert!(!r.heartbeat(&s("10.0.0.9"), &s("3000"), 8));
    assert_eq!(r.len(), 1);
    assert_eq!(r.agents[0].last_heartbeat_ms, 8);
}

#[test]
fn sweep_drops_silent_agents() {
    let mut r = Roster::new();
    r.check_in(s("a"), s("1"), 0);
    r.check_in(s("b"), s("2"), 10_000);
    r.check_in(s("c"), s("3"), 20_000);
    r.remove_offline(24_999);
    let ids: Vec<String> = r.agents.iter().map(|a| a.id.clone()).collect();
    assert_eq!(ids, vec![s("BuzzyBoi1"), s("BuzzyBoi2")]);
    r.mark_offline(&s("c"), &s("3"));
    r.remove_offline(24_999);
    assert_eq!(r.len(), 1);
    assert_eq!(r.agents[0].id, "BuzzyBoi1");
    assert_eq!(r.find(&s("b"), &s("2")), Some(0));
    assert_eq!(r.find_by_id(&s("BuzzyBoi2")), None);
    r.remove_offline(25_000);
    assert_eq!(r.len(), 0);
}

#[test]
fn poke_needs_agents() {
    let mut h = Hive::new();
    assert_eq!(h.poke(&fire("http://t/"), 0).unwrap_err(), HiveError::NoAgents);
    assert_eq!(HiveError::NoAgents.http_status(), 400);
}

#[test]
fn poke_while_running_is_refused() {
    let (mut h, _) = hive_with(&["3000"]);
    let sent = h.poke(&fire("http://t/"), 0).unwrap();
    assert_eq!(sent.len(), 1);
    assert!(h.running);
    assert_eq!(h.poke(&fire("http://t/"), 1).unwrap_err(), HiveError::AlreadyRunning);
    assert_eq!(HiveError::AlreadyRunning.http_status(), 400);
}

#[test]
fn poke_fills_defaults_into_report() {
    let (mut h, _) = hive_with(&["3000", "3001"]);
    let mut req = fire("http://t/");
    req.t = Some(4);
    h.poke(&req, 77).unwrap();
    let rep = h.report.as_ref().unwrap();
    assert_eq!((rep.threads, rep.concurrency, rep.duration, rep.timeout), (4, 50, 30, 2));
    assert_eq!(rep.start_ms, 77);
    assert_eq!(h.expected_count, 2);
    assert_eq!(h.duration_secs, 30);
}

#[test]
fn reports_complete_the_battle_once() {
    let (mut h, ids) = hive_with(&["3000", "3001"]);
    h.poke(&fire("http://t/status/404"), 0).unwrap();
    assert_eq!(h.report_in(&ids[0], stats(10, 10)), Ok(false));
    assert!(h.running);
    assert_eq!(h.status_done(), Err(HiveError::StillRunning));
    assert_eq!(h.report_in(&ids[1], stats(7, 7)), Ok(true));
    assert!(!h.running);
    let rep = h.status_report().unwrap();
    assert_eq!(rep.total_requests, 17);
    assert_eq!(rep.non_success_requests, rep.total_requests);
    assert_eq!(rep.read, 200);
    assert_eq!(rep.errors, ErrorCounts { connect: 2, read: 0, write: 4, timeout: 0 });
    assert_eq!((rep.completed, rep.failed), (2, 0));
    assert_eq!(rep.reports.len(), 2);
    assert_eq!(rep.reports[1].outcome, ReportOutcome::Complete);
    assert!(!h.finalize());
    assert_eq!(h.on_timeout(h.battle), false);
}

#[test]
fn done_twice_after_battle() {
    let (mut h, ids) = hive_with(&["3000"]);
    h.poke(&fire("http://t/"), 0).unwrap();
    h.report_in(&ids[0], stats(1, 0)).unwrap();
    assert_eq!(h.status_done(), Ok(()));
    assert_eq!(h.status_done(), Ok(()));
}

#[test]
fn reports_outside_a_battle_or_from_strangers() {
    let (mut h, ids) = hive_with(&["3000"]);
    assert_eq!(h.report_in(&ids[0], stats(1, 0)), Err(HiveError::NotRunning));
    assert_eq!(h.report_failed(&ids[0], s("x")), Err(HiveError::NotRunning));
    assert_eq!(HiveError::NotRunning.http_status(), 412);
    h.poke(&fire("http://t/"), 0).unwrap();
    assert_eq!(h.report_in(&s("BuzzyBoi99"), stats(1, 0)), Err(HiveError::AgentNotFound));
    assert_eq!(HiveError::AgentNotFound.http_status(), 412);
}

#[test]
fn failed_agent_and_timeout_finalize_partial_report() {
    let (mut h, ids) = hive_with(&["3000", "3001", "3002"]);
    h.poke(&fire("http://t/"), 0).unwrap();
    let battle = h.battle;
    assert_eq!(h.report_failed(&ids[0], s("target down")), Ok(false));
    assert_eq!(h.report_in(&ids[1], stats(5, 0)), Ok(false));
    assert!(!h.on_timeout(battle.wrapping_sub(1)));
    assert!(h.running);
    assert!(h.on_timeout(battle));
    assert!(!h.running);
    assert!(!h.on_timeout(battle));
    let rep = h.status_report().unwrap();
    assert_eq!((rep.completed, rep.failed), (1, 1));
    assert!(rep.completed + rep.failed < h.expected_count);
    assert_eq!(rep.reports[0].outcome, ReportOutcome::Failed);
    assert_eq!(rep.reports[0].error, Some(s("target down")));
    assert_eq!(h.report_in(&ids[2], stats(5, 0)), Err(HiveError::NotRunning));
}

#[test]
fn ceasefire_stops_the_battle() {
    let (mut h, _) = hive_with(&["3000"]);
    assert_eq!(h.ceasefire().unwrap_err(), HiveError::AlreadyIdle);
    h.poke(&fire("http://t/"), 0).unwrap();
    assert_eq!(h.ceasefire().unwrap().len(), 1);
    assert!(!h.running);
    assert!(h.on_timeout(h.battle));
}

#[test]
fn status_report_before_any_battle() {
    let h = Hive::new();
    assert_eq!(h.status_report().unwrap_err(), HiveError::NoReport);
}

#[test]
fn torch_and_boop_targets() {
    let (mut h, _) = hive_with(&["3000", "3001"]);
    assert_eq!(h.boop_targets().unwrap().len(), 2);
    assert_eq!(h.torch().len(), 2);
    assert_eq!(h.roster.len(), 0);
    assert_eq!(h.boop_targets().unwrap_err(), HiveError::NoAgents);
}

#[test]
fn progress_rounds_percent_and_floors_eta() {
    let p = progress(1_000, 16_000, 30);
    assert_eq!((p.percent, p.eta_secs), (50, 15));
    let p = progress(0, 29_500, 30);
    assert_eq!((p.percent, p.eta_secs), (98, 0));
    let p = progress(0, 40_000, 30);
    assert_eq!((p.percent, p.eta_secs), (100, 0));
    let p = progress(0, 2_000, 1);
    assert_eq!(p.percent, 100);
    let p = progress(5_000, 1_000, 30);
    assert_eq!((p.percent, p.eta_secs), (0, 30));
    let p = progress(0, 5_000, 0);
    assert_eq!((p.percent, p.eta_secs), (0, 0));
    let p = progress(0, 15, 1);
    assert_eq!(p.percent, 2);
}

#[test]
fn fire_defaults_and_headers() {
    let mut req = fire("https://example.com/");
    req.headers = Some(vec![(s("X-A"), s("1")), (s("X-B"), s("two"))]);
    let p = battle_params(&req).unwrap();
    assert_eq!((p.threads, p.connections, p.duration_secs, p.timeout_secs), (10, 50, 30, 2));
    assert_eq!(p.method, "GET");
    assert_eq!(p.headers, vec![s("X-A: 1"), s("X-B: two")]);
    assert_eq!(p.url, "https://example.com/");
    let mut req = fire("http://x/");
    req.t = Some(2);
    req.c = Some(10);
    req.d = Some(2);
    req.method = Some(s("POST"));
    req.body = Some(s("b"));
    let p = battle_params(&req).unwrap();
    assert_eq!((p.threads, p.connections, p.duration_secs), (2, 10, 2));
    assert_eq!(p.method, "POST");
    assert_eq!(p.body, Some(s("b")));
    assert!(p.headers.is_empty());
}

#[test]
fn fire_rejects_bad_target_and_busy_agent() {
    assert_eq!(battle_params(&fire("ftp://x/")).unwrap_err(), FireRejection::InvalidTarget);
    assert_eq!(battle_params(&fire("http:/x")).unwrap_err(), FireRejection::InvalidTarget);
    assert!(is_valid_target("http://x"));
    assert!(!is_valid_target("HTTP://x"));
    let mut a = AgentState::new();
    assert!(a.check_fire(&fire("http://x/")).is_ok());
    a.start_battle();
    assert_eq!(a.check_fire(&fire("http://x/")).unwrap_err(), FireRejection::AlreadyFiring);
}

#[test]
fn die_is_refused_while_firing() {
    let mut a = AgentState::new();
    a.start_battle();
    let e = a.die().unwrap_err();
    assert_eq!(e.status, "400");
    assert_eq!(e.message, "I'm already shooting cant die yet...");
    a.battle_finished();
    let ok = a.die().unwrap();
    assert_eq!(ok.status, "200");
}

#[test]
fn agent_ceasefire_answers() {
    let mut a = AgentState::new();
    let r = a.ceasefire();
    assert_eq!((r.status.as_str(), r.message.as_str()), ("400", "Was not firing 0__0"));
    a.start_battle();
    let r = a.ceasefire();
    assert_eq!((r.status.as_str(), r.message.as_str()), ("200", "Ok i stops"));
    assert!(!a.running);
    a.set_hive_id(s("BuzzyBoi3"));
    assert_eq!(a.hive_id, Some(s("BuzzyBoi3")));
}

#[test]
fn token_check() {
    assert_eq!(authorize(None, None, None), AuthDecision::Open);
    assert_eq!(authorize(Some("k"), None, None), AuthDecision::Missing);
    assert_eq!(authorize(Some("k"), Some("k"), None), AuthDecision::Allowed);
    assert_eq!(authorize(Some("k"), None, Some("Bearer k")), AuthDecision::Allowed);
    assert_eq!(authorize(Some("k"), Some("Bearer k"), Some("x")), AuthDecision::Allowed);
    assert_eq!(authorize(Some("k"), Some("wrong"), Some("Bearer k")), AuthDecision::Invalid);
    assert_eq!(authorize(Some("k"), None, Some("bearer k")), AuthDecision::Invalid);
}

#[test]
fn report_counters_from_summary() {
    let mut w = WorkerStats::new();
    w.record_response(200, 3, 1);
    w.record_response(404, 2, 2);
    w.record_response(503, 1, 3);
    w.record_error(wasps_with_bazookas::stats::ErrorKind::ConnectionFailed);
    w.record_error(wasps_with_bazookas::stats::ErrorKind::TlsHandshakeFailed);
    w.record_error(wasps_with_bazookas::stats::ErrorKind::WriteFailed);
    w.record_error(wasps_with_bazookas::stats::ErrorKind::InvalidResponse);
    w.record_error(wasps_with_bazookas::stats::ErrorKind::Unknown);
    w.record_error(wasps_with_bazookas::stats::ErrorKind::Timeout);
    let sum = summarize(&vec![w], 1);
    let c = report_counters(&sum);
    assert_eq!(c.total_requests, 3);
    assert_eq!(c.read, 6);
    assert_eq!(c.non_success_requests, 2);
    assert_eq!(c.errors, ErrorCounts { connect: 2, read: 2, write: 1, timeout: 1 });
}

#[test]
fn non_success_counts_codes_from_400() {
    let mut m: HashMap<i16, u64> = HashMap::new();
    m.insert(200, 5);
    m.insert(399, 1);
    m.insert(400, 3);
    m.insert(599, 2);
    m.insert(-1, 4);
    assert_eq!(non_success_requests(&m), 5);
}

#[test]
fn poke_sends_only_to_online_agents() {
    let mut h = Hive::new();
    h.roster.check_in(s("10.0.0.1"), s("3000"), 0);
    let live = h.roster.check_in(s("10.0.0.1"), s("3001"), 10_000).unwrap();
    let sent = h.poke(&fire("http://t/"), 20_000).unwrap();
    assert_eq!(sent.len(), 1);
    assert_eq!(sent[0].id, live);
    assert_eq!(h.expected_count, 1);
    assert_eq!(h.report_in(&live, stats(3, 0)), Ok(true));
    assert!(!h.running);
}

#[test]
fn poke_with_only_silent_agents_is_refused() {
    let mut h = Hive::new();
    h.roster.check_in(s("10.0.0.1"), s("3000"), 0);
    assert_eq!(h.poke(&fire("http://t/"), 15_000).unwrap_err(), HiveError::NoAgents);
    assert!(!h.running);
}

#[test]
fn report_order_does_not_change_totals() {
    let run = |first: usize| {
        let (mut h, ids) = hive_with(&["3000", "3001", "3002"]);
        h.poke(&fire("http://t/"), 0).unwrap();
        let (a, b) = if first == 0 { (0, 1) } else { (1, 0) };
        assert_eq!(h.report_in(&ids[a], stats(10 + a as u64, a as u64)), Ok(false));
        assert_eq!(h.report_in(&ids[b], stats(10 + b as u64, b as u64)), Ok(false));
        assert!(h.running);
        let r = h.report.clone().unwrap();
        (r.total_requests, r.read, r.non_success_requests, r.errors, r.completed)
    };
    assert_eq!(run(0), run(1));
}

#[test]
fn report_entry_is_the_roster_record() {
    let (mut h, ids) = hive_with(&["3000", "3001"]);
    h.poke(&fire("http://t/"), 0).unwrap();
    h.report_in(&ids[1], stats(1, 0)).unwrap();
    let entry = &h.report.as_ref().unwrap().reports[0];
    assert_eq!(entry.agent.port, "3001");
    assert_eq!(entry.agent.id, ids[1]);
    assert_eq!(entry.agent.ip, "10.0.0.1");
}
