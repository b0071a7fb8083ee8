use pinginfo::events::failure_events;
use pinginfo::models::{FailureEvent, ProbeResult, ProbeType};
use pinginfo::time::Timestamp;

fn at(secs: i64) -> Timestamp {
    Timestamp { secs, nanos: 0 }
}

fn result(target_id: i64, finished: Timestamp, success: bool) -> ProbeResult {
    ProbeResult {
        target_id,
        started_at: finished,
        finished_at: finished,
        probe_type: ProbeType::Icmp,
        resolved_ip: Some("127.0.0.1".into()),
        success,
        latency_ns: if success { Some(1_000_000) } else { None },
        ttl: None,
        error_kind: if success { None } else { Some("timeout".into()) },
        error_message: if success { None } else { Some("timeout".into()) },
    }
}

#[test]
fn groups_failures_into_time_window_events() {
    let base = 1_700_000_000;
    let results = vec![
        result(1, at(base), false),
        result(1, at(base + 40), false),
        result(1, at(base + 180), false),
    ];
    let events = failure_events(1, &results, 90);

    assert_eq!(events.len(), 2);
    assert_eq!(events[0].failure_count, 2);
    assert_eq!(events[0].duration_seconds, 40);
    assert_eq!(events[1].failure_count, 1);
}

#[test]
fn successes_do_not_split_or_count() {
    let base = 1_700_000_000;
    let results = vec![
        result(3, at(base), false),
        result(3, at(base + 10), true),
        result(3, at(base + 30), false),
        result(3, at(base + 200), true),
    ];
    let events = failure_events(3, &results, 90);
    assert_eq!(
        events,
        vec![FailureEvent {
            target_id: 3,
            started_at: at(base),
            ended_at: at(base + 30),
            failure_count: 2,
            duration_seconds: 30,
        }]
    );
}

#[test]
fn gap_is_at_least_one_second_and_measured_in_whole_seconds() {
    let t0 = Timestamp { secs: 100, nanos: 900_000_000 };
    let t1 = Timestamp { secs: 102, nanos: 100_000_000 };
    let results = vec![result(5, t0, false), result(5, t1, false)];
    // 1.2 s apart: one whole second, within a gap of one.
    let events = failure_events(5, &results, 0);
    assert_eq!(events.len(), 1);
    assert_eq!(events[0].duration_seconds, 1);
    assert!(failure_events(5, &vec![], 90).is_empty());
}

#[test]
fn failure_counts_add_up_to_the_failures() {
    let mut results = Vec::new();
    for k in 0..50 {
        results.push(result(9, at(1000 + k * 37), k % 3 != 0));
    }
    let failures = results.iter().filter(|r| !r.success).count() as u64;
    let events = failure_events(9, &results, 60);
    assert_eq!(events.iter().map(|e| e.failure_count).sum::<u64>(), failures);
}

#[test]
fn wider_gaps_merge_events_and_keep_the_failure_total() {
    let mut results = Vec::new();
    for (k, step) in [0i64, 20, 45, 120, 130, 400, 401, 700].iter().enumerate() {
        results.push(result(2, at(5_000 + step), k == 3));
    }
    let mut previous: Option<usize> = None;
    for gap in [-5i64, 0, 1, 10, 30, 100, 300, 1000] {
        let events = failure_events(2, &results, gap);
        assert_eq!(events.iter().map(|e| e.failure_count).sum::<u64>(), 7);
        if let Some(n) = previous {
            assert!(events.len() <= n);
        }
        previous = Some(events.len());
        for pair in events.windows(2) {
            assert!(pair[0].ended_at.secs < pair[1].started_at.secs);
        }
    }
    assert_eq!(failure_events(2, &results, -5), failure_events(2, &results, 1));
    assert_eq!(failure_events(2, &results, 1000).len(), 1);
}
