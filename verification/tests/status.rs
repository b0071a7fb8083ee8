use pinginfo::models::{NewTarget, ProbeResult, ProbeType, TargetState};
use pinginfo::status::TargetStatus;
use pinginfo::time::Timestamp;

fn now() -> Timestamp {
    let t = chrono::Utc::now();
    Timestamp { secs: t.timestamp(), nanos: t.timestamp_subsec_nanos() % 1_000_000_000 }
}

fn success_for_test(target_id: i64, latency_ms: f64) -> ProbeResult {
    let now = now();
    ProbeResult {
        target_id,
        started_at: now,
        finished_at: now,
        probe_type: ProbeType::Icmp,
        resolved_ip: Some("127.0.0.1".into()),
        success: true,
        latency_ns: Some((latency_ms * 1_000_000.0).round() as u64),
        ttl: Some(64),
        error_kind: None,
        error_message: None,
    }
}

fn failure_for_test(target_id: i64, error_kind: &str) -> ProbeResult {
    let now = now();
    ProbeResult {
        target_id,
        started_at: now,
        finished_at: now,
        probe_type: ProbeType::Icmp,
        resolved_ip: Some("127.0.0.1".into()),
        success: false,
        latency_ns: None,
        ttl: None,
        error_kind: Some(error_kind.into()),
        error_message: Some(error_kind.into()),
    }
}

#[test]
fn tcp_targets_require_a_port() {
    let target = NewTarget {
        name: "web".into(),
        host: "example.com".into(),
        probe_type: ProbeType::Tcp,
        port: None,
        interval_ms: 1000,
        timeout_ms: 1000,
        enabled: true,
        group_name: None,
        description: None,
    };
    assert!(target.validate().is_err());
}

#[test]
fn three_consecutive_failures_mark_target_down() {
    let mut status = TargetStatus::new(1);
    status.apply_result(&success_for_test(1, 10.0));
    status.apply_result(&failure_for_test(1, "timeout"));
    status.apply_result(&failure_for_test(1, "timeout"));
    status.apply_result(&failure_for_test(1, "timeout"));
    assert_eq!(status.state, TargetState::Down);
    assert_eq!(status.consecutive_failures, 3);
}

#[test]
fn one_or_two_failures_give_a_warning() {
    let mut status = TargetStatus::new(7);
    status.apply_result(&failure_for_test(7, "timeout"));
    assert_eq!(status.state, TargetState::Warning);
    status.apply_result(&failure_for_test(7, "timeout"));
    assert_eq!(status.state, TargetState::Warning);
    assert_eq!(status.failure_count, 2);
    assert_eq!(status.last_latency_ns, None);
}

#[test]
fn success_after_failures_restores_health() {
    let mut status = TargetStatus::new(2);
    for _ in 0..4 {
        status.apply_result(&failure_for_test(2, "timeout"));
    }
    assert_eq!(status.state, TargetState::Down);
    let ok = success_for_test(2, 5.0);
    status.apply_result(&ok);
    assert_eq!(status.state, TargetState::Healthy);
    assert_eq!(status.consecutive_failures, 0);
    assert_eq!(status.failure_count, 4);
    assert_eq!(status.success_count, 1);
    assert_eq!(status.last_success_at, Some(ok.finished_at));
}

#[test]
fn latency_extremes_and_total_follow_successes() {
    let mut status = TargetStatus::new(3);
    status.apply_result(&success_for_test(3, 10.0));
    status.apply_result(&success_for_test(3, 4.0));
    status.apply_result(&success_for_test(3, 7.0));
    assert_eq!(status.min_latency_ns, Some(4_000_000));
    assert_eq!(status.max_latency_ns, Some(10_000_000));
    assert_eq!(status.last_latency_ns, Some(7_000_000));
    assert_eq!(status.latency_total_ns(), 21_000_000);
    let mut no_latency = success_for_test(3, 1.0);
    no_latency.latency_ns = None;
    status.apply_result(&no_latency);
    assert_eq!(status.success_count, 4);
    assert_eq!(status.last_latency_ns, Some(7_000_000));
    assert_eq!(status.latency_total_ns(), 21_000_000);
}

#[test]
fn disabled_status_starts_empty() {
    let status = TargetStatus::disabled(9);
    assert_eq!(status.state, TargetState::Disabled);
    assert_eq!(status.target_id, 9);
    assert_eq!(status.success_count + status.failure_count, 0);
    assert!(status.can_apply(&failure_for_test(9, "x")));
}

#[test]
fn can_apply_refuses_counter_overflow() {
    let mut status = TargetStatus::new(4);
    status.failure_count = u64::MAX;
    assert!(!status.can_apply(&failure_for_test(4, "timeout")));
    assert!(status.can_apply(&success_for_test(4, 1.0)));
}

#[test]
fn average_divisor_stays_until_the_next_measured_latency() {
    let mut status = TargetStatus::new(5);
    status.apply_result(&success_for_test(5, 10.0));
    status.apply_result(&success_for_test(5, 20.0));
    assert_eq!(status.average_divisor, 2);
    let mut no_latency = success_for_test(5, 1.0);
    no_latency.latency_ns = None;
    status.apply_result(&no_latency);
    status.apply_result(&failure_for_test(5, "timeout"));
    assert_eq!(status.success_count, 3);
    assert_eq!(status.average_divisor, 2);
    assert_eq!(status.latency_total_ns() / status.average_divisor as u128, 15_000_000);
    status.apply_result(&success_for_test(5, 30.0));
    assert_eq!(status.average_divisor, 4);
}
