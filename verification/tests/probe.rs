use pinginfo::models::{ProbeType, Target};
use pinginfo::probe::{
    echo_identifier, failure_result, icmp_probe_result, poll_interval_ms, tcp_probe_result,
    timeout_duration, IcmpOutcome, TcpOutcome,
};
use pinginfo::time::Timestamp;

fn target(probe_type: ProbeType, port: Option<u16>) -> Target {
    Target {
        id: 1,
        name: "local".into(),
        host: "127.0.0.1".into(),
        probe_type,
        port,
        interval_ms: 100,
        timeout_ms: 0,
        enabled: true,
        group_name: None,
        description: None,
    }
}

const T0: Timestamp = Timestamp { secs: 1_700_000_000, nanos: 0 };
const T1: Timestamp = Timestamp { secs: 1_700_000_001, nanos: 0 };

#[test]
fn timing_has_floors() {
    let t = target(ProbeType::Tcp, Some(80));
    assert_eq!(timeout_duration(&t), 1);
    assert_eq!(poll_interval_ms(&t), 250);
    let t = Target { timeout_ms: 1500, interval_ms: 5000, ..t };
    assert_eq!(timeout_duration(&t), 1500);
    assert_eq!(poll_interval_ms(&t), 5000);
}

#[test]
fn echo_identifier_wraps() {
    assert_eq!(echo_identifier(1), 2);
    assert_eq!(echo_identifier(65535), 0);
    assert_eq!(echo_identifier(65536 + 9), 10);
    assert_eq!(echo_identifier(-1), 0);
    for id in [0i64, 7, 70_000, -5, i64::MAX] {
        assert_eq!(echo_identifier(id), (id as u16).wrapping_add(1));
    }
}

#[test]
fn tcp_outcomes_become_results() {
    let t = target(ProbeType::Tcp, None);
    let r = tcp_probe_result(&t, T0, T1, TcpOutcome::MissingPort);
    assert!(!r.success);
    assert_eq!(r.error_kind.as_deref(), Some("validation"));
    assert_eq!(r.error_message.as_deref(), Some("tcp target is missing port"));
    assert_eq!(r.resolved_ip, None);

    let t = target(ProbeType::Tcp, Some(80));
    let r = tcp_probe_result(
        &t,
        T0,
        T1,
        TcpOutcome::Connected { ip: "127.0.0.1".into(), latency_ns: 42 },
    );
    assert!(r.success);
    assert_eq!(r.latency_ns, Some(42));
    assert_eq!(r.resolved_ip.as_deref(), Some("127.0.0.1"));
    assert_eq!((r.started_at, r.finished_at), (T0, T1));

    let r = tcp_probe_result(&t, T0, T1, TcpOutcome::TimedOut { ip: "10.0.0.1".into() });
    assert_eq!(r.error_kind.as_deref(), Some("timeout"));
    assert_eq!(r.error_message.as_deref(), Some("tcp probe timed out"));
    assert_eq!(r.resolved_ip.as_deref(), Some("10.0.0.1"));

    let r = tcp_probe_result(
        &t,
        T0,
        T1,
        TcpOutcome::ConnectFailed { ip: "10.0.0.1".into(), message: "refused".into() },
    );
    assert_eq!(r.error_kind.as_deref(), Some("connect"));
    assert_eq!(r.error_message.as_deref(), Some("refused"));

    let r = tcp_probe_result(&t, T0, T1, TcpOutcome::ResolveFailed("no address resolved".into()));
    assert_eq!(r.error_kind.as_deref(), Some("resolve"));
    assert_eq!(r.resolved_ip, None);
}

#[test]
fn icmp_outcomes_become_results() {
    let t = target(ProbeType::Icmp, None);
    let r = icmp_probe_result(
        &t,
        T0,
        T1,
        IcmpOutcome::Replied { ip: "1.1.1.1".into(), latency_ns: 9, ttl: Some(57) },
    );
    assert!(r.success);
    assert_eq!(r.ttl, Some(57));
    assert_eq!(r.probe_type, ProbeType::Icmp);
    let r = icmp_probe_result(
        &t,
        T0,
        T1,
        IcmpOutcome::SocketFailed { ip: "1.1.1.1".into(), message: "denied".into() },
    );
    assert_eq!(r.error_kind.as_deref(), Some("socket"));
    let r = icmp_probe_result(
        &t,
        T0,
        T1,
        IcmpOutcome::PingFailed { ip: "1.1.1.1".into(), message: "timeout".into() },
    );
    assert_eq!(r.error_kind.as_deref(), Some("icmp"));
    let r = failure_result(&t, T0, T1, "resolve", "x".into(), None);
    assert_eq!((r.target_id, r.ttl, r.latency_ns), (1, None, None));
}
