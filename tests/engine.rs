use std::collections::HashMap;
use wasps_with_bazookas::battle::{keep_firing, plan_workers, should_retry_health_check, summarize};
use wasps_with_bazookas::connection::{ConnPhase, ConnTracker, HandshakeOutcome, Interest, ReadEnd};
use wasps_with_bazookas::stats::{count_at_least, merge_into, ErrorKind, WorkerStats};

fn total(m: &HashMap<i16, u64>) -> u64 {
    m.values().sum()
}

fn sent_plain(stats: &mut WorkerStats) -> ConnTracker {
    let mut c = ConnTracker::new(false);
    assert!(c.wants_to_send());
    assert_eq!(c.on_sent(stats, true), Interest::Readable);
    c
}

#[test]
fn one_response_with_content_length_is_counted() {
    let mut stats = WorkerStats::new();
    let mut c = sent_plain(&mut stats);
    let r = c.on_bytes(&mut stats, b"HTTP/1.1 200 OK\r\nContent-Length: 2\r\n\r\nOK", 150);
    assert_eq!(r, Interest::Writable);
    assert_eq!(c.phase, ConnPhase::Connected);
    assert_eq!(stats.requests, 1);
    assert_eq!(stats.bytes, 2);
    assert_eq!(stats.latencies, vec![150]);
    assert_eq!(stats.status_counts.get(&200), Some(&1));
}

#[test]
fn header_split_over_reads_and_body_later() {
    let mut stats = WorkerStats::new();
    let mut c = sent_plain(&mut stats);
    assert_eq!(c.on_bytes(&mut stats, b"HTTP/1.1 201 Created\r\nConte", 1), Interest::Readable);
    assert_eq!(c.phase, ConnPhase::AwaitingHeader);
    assert_eq!(c.on_bytes(&mut stats, b"nt-Length: 5\r\n\r\nab", 2), Interest::Readable);
    assert_eq!(c.phase, ConnPhase::ReadingBody);
    assert_eq!(c.on_read_end(&mut stats, ReadEnd::WouldBlock, 3), Interest::Readable);
    assert_eq!(stats.requests, 0);
    assert_eq!(c.on_bytes(&mut stats, b"cde", 4), Interest::Writable);
    assert_eq!(stats.requests, 1);
    assert_eq!(stats.bytes, 5);
    assert_eq!(stats.latencies, vec![4]);
    assert_eq!(stats.status_counts.get(&201), Some(&1));
}

#[test]
fn body_without_content_length_reads_until_eof() {
    let mut stats = WorkerStats::new();
    let mut c = sent_plain(&mut stats);
    assert_eq!(c.on_bytes(&mut stats, b"HTTP/1.1 200 OK\r\n\r\nhello", 1), Interest::Readable);
    assert_eq!(c.on_bytes(&mut stats, b" world", 2), Interest::Readable);
    assert_eq!(stats.requests, 0);
    assert_eq!(c.on_read_end(&mut stats, ReadEnd::Eof, 9), Interest::Writable);
    assert_eq!(stats.requests, 1);
    assert_eq!(stats.bytes, 11);
    assert_eq!(stats.status_counts.get(&200), Some(&1));
}

#[test]
fn keep_alive_serves_many_requests() {
    let mut stats = WorkerStats::new();
    let mut c = ConnTracker::new(false);
    for i in 0..10u128 {
        assert_eq!(c.on_sent(&mut stats, true), Interest::Readable);
        assert_eq!(c.on_bytes(&mut stats, b"HTTP/1.1 200 OK\r\nContent-Length: 2\r\n\r\nOK", i), Interest::Writable);
    }
    assert_eq!(stats.requests, 10);
    assert_eq!(stats.status_counts.len(), 1);
    assert_eq!(stats.status_counts.get(&200), Some(&10));
    assert!(total(&stats.status_counts) >= stats.requests);
}

#[test]
fn unreadable_status_line_counts_invalid_response() {
    let mut stats = WorkerStats::new();
    let mut c = sent_plain(&mut stats);
    c.on_bytes(&mut stats, b"garbage\r\nContent-Length: 0\r\n\r\n", 5);
    assert_eq!(stats.requests, 1);
    assert_eq!(stats.status_counts.get(&-4), Some(&1));
}

#[test]
fn large_status_code_is_kept_as_signed_key() {
    let mut stats = WorkerStats::new();
    let mut c = sent_plain(&mut stats);
    c.on_bytes(&mut stats, b"HTTP/1.1 40000 Odd\r\nContent-Length: 0\r\n\r\n", 5);
    assert_eq!(stats.status_counts.get(&((40000u32 as i32 - 65536) as i16)), Some(&1));
}

#[test]
fn errors_are_counted_by_class() {
    let mut stats = WorkerStats::new();
    let mut tls = ConnTracker::new(true);
    assert_eq!(tls.phase, ConnPhase::Connecting);
    assert_eq!(tls.on_handshake(&mut stats, HandshakeOutcome::InProgress), Interest::ReadWrite);
    assert_eq!(tls.on_handshake(&mut stats, HandshakeOutcome::Failed), Interest::Nothing);
    assert_eq!(stats.status_counts.get(&-2), Some(&1));

    let mut w = ConnTracker::new(false);
    assert_eq!(w.on_sent(&mut stats, false), Interest::Nothing);
    assert_eq!(stats.status_counts.get(&-3), Some(&1));

    let mut e = sent_plain(&mut stats);
    assert_eq!(e.on_read_end(&mut stats, ReadEnd::Eof, 1), Interest::Nothing);
    assert_eq!(stats.status_counts.get(&-4), Some(&1));

    let mut t = sent_plain(&mut stats);
    t.on_read_end(&mut stats, ReadEnd::TimedOut, 1);
    assert_eq!(stats.status_counts.get(&-5), Some(&1));

    let mut u = sent_plain(&mut stats);
    u.on_read_end(&mut stats, ReadEnd::Failed, 1);
    assert_eq!(stats.status_counts.get(&-6), Some(&1));

    stats.record_error(ErrorKind::ConnectionFailed);
    assert_eq!(stats.status_counts.get(&-1), Some(&1));
    assert_eq!(ErrorKind::Unknown.key(), -6);
    assert_eq!(stats.requests, 0);
    assert!(stats.latencies.is_empty());
}

#[test]
fn nothing_is_counted_before_sending_or_without_header() {
    let mut stats = WorkerStats::new();
    let mut c = ConnTracker::new(false);
    assert_eq!(c.on_bytes(&mut stats, b"HTTP/1.1 200 OK\r\n\r\n", 1), Interest::Writable);
    assert_eq!(c.on_read_end(&mut stats, ReadEnd::Eof, 1), Interest::Writable);
    assert_eq!(stats.requests, 0);
    assert!(stats.status_counts.is_empty());
    let mut d = sent_plain(&mut stats);
    d.on_bytes(&mut stats, b"HTTP/1.1 200 OK\r\nContent-Length: 3", 1);
    assert_eq!(stats.requests, 0);
    assert!(stats.latencies.is_empty());
}

#[test]
fn tls_connection_sends_after_handshake() {
    let mut stats = WorkerStats::new();
    let mut c = ConnTracker::new(true);
    assert!(!c.wants_to_send());
    assert_eq!(c.on_handshake(&mut stats, HandshakeOutcome::Complete), Interest::Writable);
    assert!(c.wants_to_send());
    assert_eq!(c.on_sent(&mut stats, true), Interest::Readable);
    assert!(c.wants_to_read());
}

#[test]
fn workers_split_connections_evenly() {
    assert_eq!(plan_workers(2, 10), vec![5, 5]);
    assert_eq!(plan_workers(3, 10), vec![3, 3, 3]);
    assert_eq!(plan_workers(0, 0), Vec::<u32>::new());
}

#[test]
fn more_threads_than_connections_gives_idle_workers() {
    assert_eq!(plan_workers(4, 2), vec![0, 0, 0, 0]);
}

#[test]
fn zero_connections_give_zero_result() {
    let workers: Vec<WorkerStats> = plan_workers(3, 0).iter().map(|_| WorkerStats::new()).collect();
    let s = summarize(&workers, 2);
    assert_eq!(s.requests, 0);
    assert_eq!(s.bytes, 0);
    assert!(s.status_counts.is_empty());
    assert_eq!(s.latency_p50, None);
    assert_eq!(s.latency_p90, None);
    assert_eq!(s.latency_p99, None);
    assert!(s.all_latencies.is_empty());
    assert_eq!(s.duration_secs, 2);
}

#[test]
fn summary_merges_workers() {
    let mut a = WorkerStats::new();
    for l in [5u128, 1, 9, 3, 7] {
        a.record_response(200, 10, l);
    }
    a.record_error(ErrorKind::Timeout);
    let mut b = WorkerStats::new();
    for l in [2u128, 10, 4, 8, 6] {
        b.record_response(404, 1, l);
    }
    let s = summarize(&vec![a, b], 5);
    assert_eq!(s.requests, 10);
    assert_eq!(s.bytes, 55);
    assert_eq!(s.all_latencies, (1..=10).collect::<Vec<u128>>());
    assert_eq!(s.latency_p50, Some(6));
    assert_eq!(s.latency_p90, Some(10));
    assert_eq!(s.latency_p99, Some(10));
    assert_eq!(s.status_counts.get(&200), Some(&5));
    assert_eq!(s.status_counts.get(&404), Some(&5));
    assert_eq!(s.status_counts.get(&-5), Some(&1));
    assert!(total(&s.status_counts) >= s.requests);
    assert!(s.latency_p50 <= s.latency_p90 && s.latency_p90 <= s.latency_p99);
}

#[test]
fn percentiles_of_a_large_sample() {
    let mut a = WorkerStats::new();
    for l in (0..1000u128).rev() {
        a.record_response(200, 0, l);
    }
    let s = summarize(&vec![a], 1);
    assert_eq!(s.latency_p50, Some(500));
    assert_eq!(s.latency_p90, Some(900));
    assert_eq!(s.latency_p99, Some(990));
}

#[test]
fn single_latency_percentiles() {
    let mut a = WorkerStats::new();
    a.record_response(200, 0, 42);
    let s = summarize(&vec![a], 1);
    assert_eq!((s.latency_p50, s.latency_p90, s.latency_p99), (Some(42), Some(42), Some(42)));
}

#[test]
fn histogram_merge_and_threshold_sum() {
    let mut a: HashMap<i16, u64> = HashMap::new();
    a.insert(200, 3);
    a.insert(-1, 1);
    let mut b: HashMap<i16, u64> = HashMap::new();
    b.insert(200, 2);
    b.insert(500, u64::MAX);
    b.insert(404, 4);
    merge_into(&mut a, &b);
    assert_eq!(a.get(&200), Some(&5));
    assert_eq!(a.get(&-1), Some(&1));
    assert_eq!(a.get(&404), Some(&4));
    assert_eq!(count_at_least(&a, 400), u64::MAX);
    a.insert(500, 1);
    assert_eq!(count_at_least(&a, 400), 5);
    assert_eq!(count_at_least(&a, i16::MIN), 11);
}

#[test]
fn health_check_retries_only_transient_failures() {
    assert!(should_retry_health_check(1, "Failed to send request: Broken pipe (os error 32)"));
    assert!(should_retry_health_check(4, "Resource temporarily unavailable (os error 11)"));
    assert!(should_retry_health_check(2, "Socket is not connected (os error 57)"));
    assert!(!should_retry_health_check(5, "Broken pipe"));
    assert!(!should_retry_health_check(1, "Connection refused (os error 111)"));
}

#[test]
fn bytes_beyond_content_length_are_not_counted() {
    let mut stats = WorkerStats::new();
    let mut c = sent_plain(&mut stats);
    c.on_bytes(&mut stats, b"HTTP/1.1 200 OK\r\nContent-Length: 2\r\n\r\nOKextra", 1);
    assert_eq!(stats.requests, 1);
    assert_eq!(stats.bytes, 2);
    let mut d = sent_plain(&mut stats);
    d.on_bytes(&mut stats, b"HTTP/1.1 200 OK\r\nContent-Length: 3\r\n\r\na", 1);
    d.on_bytes(&mut stats, b"bcdef", 2);
    assert_eq!(stats.requests, 2);
    assert_eq!(stats.bytes, 5);
}

#[test]
fn read_errors_in_body_abandon_the_connection() {
    let mut stats = WorkerStats::new();
    let mut t = sent_plain(&mut stats);
    t.on_bytes(&mut stats, b"HTTP/1.1 200 OK\r\nContent-Length: 9\r\n\r\nab", 1);
    assert_eq!(t.on_read_end(&mut stats, ReadEnd::TimedOut, 2), Interest::Nothing);
    assert_eq!(t.phase, ConnPhase::Failed);
    assert_eq!(stats.status_counts.get(&-5), Some(&1));
    let mut f = sent_plain(&mut stats);
    f.on_bytes(&mut stats, b"HTTP/1.1 200 OK\r\n\r\nab", 1);
    f.on_read_end(&mut stats, ReadEnd::Failed, 2);
    assert_eq!(stats.status_counts.get(&-6), Some(&1));
    let mut e = sent_plain(&mut stats);
    e.on_bytes(&mut stats, b"HTTP/1.1 200 OK\r\nContent-Length: 9\r\n\r\nab", 1);
    e.on_read_end(&mut stats, ReadEnd::Eof, 2);
    assert_eq!(e.phase, ConnPhase::Failed);
    assert_eq!(stats.status_counts.get(&-4), Some(&1));
    assert_eq!(stats.requests, 0);
    assert_eq!(stats.status_counts.get(&200), None);
}

#[test]
fn workers_stop_at_duration_or_ceasefire() {
    assert!(keep_firing(1_999_999, 2, true));
    assert!(!keep_firing(2_000_000, 2, true));
    assert!(!keep_firing(0, 2, false));
    assert!(!keep_firing(0, 0, true));
}
