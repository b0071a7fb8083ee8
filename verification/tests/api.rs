use pinginfo::api::{
    key_from_lowered, new_target_key, plan_bulk, skipped_label, target_key, BulkStep, ResultsPlan,
    ResultsQuery,
    RollupQuery,
};
use pinginfo::models::{NewTarget, ProbeType, Target};
use pinginfo::time::Timestamp;

fn submission(host: &str, probe_type: ProbeType, port: Option<u16>) -> NewTarget {
    NewTarget {
        name: "n".into(),
        host: host.into(),
        probe_type,
        port,
        interval_ms: 1000,
        timeout_ms: 1000,
        enabled: false,
        group_name: None,
        description: None,
    }
}

fn stored(id: i64, host: &str, probe_type: ProbeType, port: Option<u16>) -> Target {
    Target {
        id,
        name: "n".into(),
        host: host.into(),
        probe_type,
        port,
        interval_ms: 1000,
        timeout_ms: 1000,
        enabled: true,
        group_name: None,
        description: None,
    }
}

fn now() -> Timestamp {
    Timestamp { secs: 1_700_000_000, nanos: 5 }
}

#[test]
fn keys_join_kind_lower_cased_host_and_port() {
    assert_eq!(
        target_key(&stored(1, "Example.COM", ProbeType::Tcp, Some(443))),
        "tcp:example.com:443"
    );
    assert_eq!(
        new_target_key(&submission("223.5.5.5", ProbeType::Icmp, None)),
        "icmp:223.5.5.5:"
    );
    assert_eq!(
        new_target_key(&submission("ÉCOLE.fr", ProbeType::Icmp, None)),
        format!("icmp:{}:", "ÉCOLE.fr".to_lowercase())
    );
}

#[test]
fn skipped_labels_show_host_and_port() {
    assert_eq!(skipped_label(&submission("Example.com", ProbeType::Tcp, Some(8080))), "Example.com:8080");
    assert_eq!(skipped_label(&submission("1.1.1.1", ProbeType::Icmp, None)), "1.1.1.1");
}

#[test]
fn bulk_targets_create_multiple_targets_at_once() {
    let inputs = vec![
        submission("223.5.5.5", ProbeType::Icmp, None),
        submission("example.com", ProbeType::Tcp, Some(443)),
    ];
    let steps = plan_bulk(&vec![], &inputs);
    assert_eq!(steps.len(), 2);
    assert!(steps.iter().all(|s| matches!(s, BulkStep::Create)));
}

#[test]
fn bulk_import_skips_stored_and_repeated_targets() {
    let existing = vec![stored(1, "example.com", ProbeType::Tcp, Some(443))];
    let inputs = vec![
        submission("EXAMPLE.com", ProbeType::Tcp, Some(443)),
        submission("example.com", ProbeType::Tcp, Some(80)),
        submission("example.com", ProbeType::Icmp, None),
        submission("Example.com", ProbeType::Tcp, Some(80)),
    ];
    let steps = plan_bulk(&existing, &inputs);
    let labels: Vec<Option<String>> = steps
        .iter()
        .map(|s| match s {
            BulkStep::Create => None,
            BulkStep::Skip(label) => Some(label.clone()),
        })
        .collect();
    assert_eq!(
        labels,
        vec![
            Some("EXAMPLE.com:443".to_string()),
            None,
            None,
            Some("Example.com:80".to_string()),
        ]
    );
}

#[test]
fn results_query_plans_window_or_recent() {
    let q = ResultsQuery { limit: None, minutes: None, before: None };
    assert_eq!(q.plan(now()).unwrap(), ResultsPlan::Recent { limit: 500 });
    let q = ResultsQuery { limit: Some(10), minutes: None, before: Some("garbage".into()) };
    assert_eq!(q.plan(now()).unwrap(), ResultsPlan::Recent { limit: 10 });
    let q = ResultsQuery { limit: Some(10), minutes: Some(10), before: None };
    assert_eq!(q.plan(now()).unwrap(), ResultsPlan::Window { minutes: 10, end_at: now() });
    let q = ResultsQuery {
        limit: None,
        minutes: Some(10),
        before: Some("2024-01-02T03:04:05.5+01:00".into()),
    };
    let expected = chrono::DateTime::parse_from_rfc3339("2024-01-02T03:04:05.5+01:00").unwrap();
    assert_eq!(
        q.plan(now()).unwrap(),
        ResultsPlan::Window {
            minutes: 10,
            end_at: Timestamp { secs: expected.timestamp(), nanos: 500_000_000 },
        }
    );
}

#[test]
fn before_bound_errors_carry_the_parser_message_and_leap_seconds_pass() {
    let q = RollupQuery { minutes: None, before: Some("yesterday".into()) };
    let error = q.window(now()).unwrap_err();
    let expected = chrono::DateTime::parse_from_rfc3339("yesterday").unwrap_err().to_string();
    assert_eq!(error.message, expected);
    let q = RollupQuery { minutes: None, before: Some("2016-12-31T23:59:60.5Z".into()) };
    let leap = chrono::DateTime::parse_from_rfc3339("2016-12-31T23:59:60.5Z").unwrap();
    assert_eq!(
        q.window(now()).unwrap(),
        (60, Timestamp { secs: leap.timestamp(), nanos: 1_500_000_000 })
    );
}

#[test]
fn rollup_window_defaults_to_an_hour_ending_now() {
    let q = RollupQuery { minutes: None, before: None };
    assert_eq!(q.window(now()).unwrap(), (60, now()));
    let q = RollupQuery { minutes: Some(5), before: None };
    assert_eq!(q.window(now()).unwrap(), (5, now()));
}

#[test]
fn keys_from_lowered_hosts_join_the_parts() {
    assert_eq!(key_from_lowered(ProbeType::Tcp, "example.com", Some(443)), "tcp:example.com:443");
    assert_eq!(key_from_lowered(ProbeType::Icmp, "::1", None), "icmp:::1:");
    assert_ne!(
        key_from_lowered(ProbeType::Icmp, "a:", None),
        key_from_lowered(ProbeType::Icmp, "a", Some(0))
    );
}
