use chrono::{DateTime, TimeZone, Utc};
use pinginfo::models::{NewTarget, ProbeResult, ProbeType};
use pinginfo::records::{
    recent_limit, result_from_row, retention_cutoff, retention_fits, rollup_delta,
    target_from_row, target_values, window_bounds, window_fits, RecordError, ResultRow,
    TargetRow,
};
use pinginfo::time::{
    is_before, minute_bucket, parse_timestamp, seconds_between, Timestamp, TimestampError,
    MAX_TIMESTAMP_SECS, is_representable, timestamp_from_reading,
    MIN_TIMESTAMP_SECS,
};

fn ts(value: DateTime<Utc>) -> Timestamp {
    Timestamp { secs: value.timestamp(), nanos: value.timestamp_subsec_nanos() }
}

#[test]
fn timestamp_range_is_the_calendar_range() {
    assert_eq!(DateTime::<Utc>::MIN_UTC.timestamp(), MIN_TIMESTAMP_SECS);
    assert_eq!(DateTime::<Utc>::MAX_UTC.timestamp(), MAX_TIMESTAMP_SECS);
}

#[test]
fn seconds_between_rounds_toward_zero_like_the_calendar() {
    let pairs = [
        (Timestamp { secs: 10, nanos: 0 }, Timestamp { secs: 8, nanos: 500_000_000 }),
        (Timestamp { secs: 8, nanos: 500_000_000 }, Timestamp { secs: 10, nanos: 0 }),
        (Timestamp { secs: 5, nanos: 1 }, Timestamp { secs: 5, nanos: 2 }),
        (Timestamp { secs: -3, nanos: 999_999_999 }, Timestamp { secs: 4, nanos: 0 }),
    ];
    for (a, b) in pairs {
        let da = DateTime::from_timestamp(a.secs, a.nanos).unwrap();
        let db = DateTime::from_timestamp(b.secs, b.nanos).unwrap();
        assert_eq!(seconds_between(a, b), da.signed_duration_since(db).num_seconds());
    }
    assert!(is_before(pairs[0].1, pairs[0].0));
    assert!(!is_before(pairs[0].0, pairs[0].0));
}

#[test]
fn minute_bucket_floors_to_the_minute() {
    let t = Utc.with_ymd_and_hms(2024, 5, 6, 7, 8, 59).unwrap();
    let b = minute_bucket(Timestamp { secs: t.timestamp(), nanos: 123 });
    assert_eq!(b, ts(Utc.with_ymd_and_hms(2024, 5, 6, 7, 8, 0).unwrap()));
    let before_epoch = minute_bucket(Timestamp { secs: -1, nanos: 0 });
    assert_eq!(before_epoch, Timestamp { secs: -60, nanos: 0 });
}

#[test]
fn rfc3339_texts_read_back_as_instants() {
    let text = "2024-05-06T07:08:09.250+02:00";
    let parsed = DateTime::parse_from_rfc3339(text).unwrap();
    assert_eq!(
        parse_timestamp(text).unwrap(),
        Timestamp { secs: parsed.timestamp(), nanos: 250_000_000 }
    );
    let now = Utc::now();
    assert_eq!(parse_timestamp(&now.to_rfc3339()).unwrap(), ts(now));
    assert!(parse_timestamp("2024-05-06").is_err());
}

#[test]
fn windows_are_clamped_and_end_where_asked() {
    let end = Timestamp { secs: 1_700_000_000, nanos: 7 };
    assert!(window_fits(10, end));
    assert_eq!(window_bounds(10, end), (Timestamp { secs: 1_700_000_000 - 600, nanos: 7 }, end));
    assert_eq!(window_bounds(0, end).0.secs, 1_700_000_000 - 60);
    assert_eq!(window_bounds(1_000_000, end).0.secs, 1_700_000_000 - 43_200 * 60);
    assert!(!window_fits(10, Timestamp { secs: MIN_TIMESTAMP_SECS + 5, nanos: 0 }));
    assert_eq!(recent_limit(0), 1);
    assert_eq!(recent_limit(10), 10);
    assert_eq!(recent_limit(5000), 2000);
}

#[test]
fn retention_is_at_least_a_day() {
    let now = Timestamp { secs: 1_700_000_000, nanos: 0 };
    assert_eq!(retention_cutoff(now, 30).secs, 1_700_000_000 - 30 * 86_400);
    assert_eq!(retention_cutoff(now, -4).secs, 1_700_000_000 - 86_400);
    assert!(retention_fits(now, 30));
    assert!(!retention_fits(now, i64::MAX));
}

#[test]
fn rollup_contribution_counts_one_outcome() {
    let t = Timestamp { secs: 1_700_000_075, nanos: 1 };
    let ok = ProbeResult {
        target_id: 4,
        started_at: t,
        finished_at: t,
        probe_type: ProbeType::Tcp,
        resolved_ip: None,
        success: true,
        latency_ns: Some(12_000_000),
        ttl: None,
        error_kind: None,
        error_message: None,
    };
    let d = rollup_delta(&ok);
    assert_eq!(d.bucket_start, Timestamp { secs: 1_700_000_040, nanos: 0 });
    assert_eq!((d.success_count, d.failure_count, d.latency_samples), (1, 0, 1));
    let failed = ProbeResult { success: false, latency_ns: None, ..ok };
    let d = rollup_delta(&failed);
    assert_eq!((d.success_count, d.failure_count, d.latency_samples), (0, 1, 0));
}

#[test]
fn target_rows_read_back_with_truncation() {
    let row = TargetRow {
        id: 3,
        name: "web".into(),
        host: "example.com".into(),
        probe_type: "tcp".into(),
        port: Some(65536 + 443),
        interval_ms: 1000,
        timeout_ms: -1,
        enabled: 2,
        group_name: Some("g".into()),
        description: None,
    };
    let t = target_from_row(row).unwrap();
    assert_eq!(t.port, Some(443));
    assert_eq!(t.timeout_ms, u64::MAX);
    assert!(t.enabled);
    assert_eq!(t.probe_type, ProbeType::Tcp);
    let bad = TargetRow {
        id: 3,
        name: "web".into(),
        host: "example.com".into(),
        probe_type: "http".into(),
        port: None,
        interval_ms: 1000,
        timeout_ms: 1000,
        enabled: 0,
        group_name: None,
        description: None,
    };
    assert_eq!(target_from_row(bad).unwrap_err(), "unknown probe type: http");
}

#[test]
fn stored_values_are_trimmed_after_validation() {
    let input = NewTarget {
        name: "  web ".into(),
        host: "\texample.com ".into(),
        probe_type: ProbeType::Tcp,
        port: Some(443),
        interval_ms: u64::MAX,
        timeout_ms: 1000,
        enabled: true,
        group_name: Some(" g ".into()),
        description: None,
    };
    let v = target_values(&input).unwrap();
    assert_eq!(v.name, "web");
    assert_eq!(v.host, "example.com");
    assert_eq!(v.probe_type, "tcp");
    assert_eq!(v.port, Some(443));
    assert_eq!(v.interval_ms, -1);
    assert_eq!(v.enabled, 1);
    assert_eq!(v.group_name, Some(" g ".to_string()));
    let invalid = NewTarget { port: None, ..input };
    assert_eq!(target_values(&invalid).unwrap_err(), "tcp targets require a port");
}

#[test]
fn result_rows_read_back() {
    let row = ResultRow {
        target_id: 2,
        started_at: "2024-01-01T00:00:00+00:00".into(),
        finished_at: "2024-01-01T00:00:01.5+00:00".into(),
        probe_type: "icmp".into(),
        resolved_ip: Some("10.0.0.1".into()),
        success: 1,
        latency_ns: Some(1_500_000),
        ttl: Some(300),
        error_kind: None,
        error_message: None,
    };
    let r = result_from_row(row).unwrap();
    assert_eq!(r.finished_at.nanos, 500_000_000);
    assert_eq!(r.ttl, Some(44));
    assert!(r.success);
    let bad = ResultRow {
        target_id: 2,
        started_at: "not a time".into(),
        finished_at: "2024-01-01T00:00:01Z".into(),
        probe_type: "nope".into(),
        resolved_ip: None,
        success: 0,
        latency_ns: None,
        ttl: None,
        error_kind: None,
        error_message: None,
    };
    assert!(matches!(result_from_row(bad), Err(RecordError::Time(_))));
}

fn leap_instant() -> (DateTime<chrono::FixedOffset>, Timestamp) {
    let d = DateTime::parse_from_rfc3339("2016-12-31T23:59:60.25Z").unwrap();
    (d, Timestamp { secs: d.timestamp(), nanos: d.timestamp_subsec_nanos() })
}

#[test]
fn leap_seconds_count_as_the_calendar_counts_them() {
    let (leap_dt, leap) = leap_instant();
    assert_eq!(leap.nanos, 1_250_000_000);
    assert_eq!(parse_timestamp("2016-12-31T23:59:60.25Z").unwrap(), leap);
    let others = [
        "2016-12-31T23:59:59.5Z",
        "2016-12-31T23:58:00Z",
        "2017-01-01T00:00:00Z",
        "2017-01-01T00:00:00.75Z",
        "2017-01-02T12:00:00Z",
        "2016-12-30T23:59:59.9Z",
    ];
    for text in others {
        let d = DateTime::parse_from_rfc3339(text).unwrap();
        let t = Timestamp { secs: d.timestamp(), nanos: d.timestamp_subsec_nanos() };
        assert_eq!(seconds_between(t, leap), d.signed_duration_since(leap_dt).num_seconds(), "{text}");
        assert_eq!(seconds_between(leap, t), leap_dt.signed_duration_since(d).num_seconds(), "{text}");
    }
}

#[test]
fn windows_ending_in_a_leap_second_start_where_the_calendar_says() {
    let (leap_dt, leap) = leap_instant();
    for minutes in [1i64, 10, 60] {
        let (start, end) = window_bounds(minutes, leap);
        let expected = leap_dt - chrono::Duration::minutes(minutes);
        assert_eq!(start, Timestamp { secs: expected.timestamp(), nanos: expected.timestamp_subsec_nanos() });
        assert_eq!(end, leap);
    }
    let cut = retention_cutoff(leap, 2);
    let expected = leap_dt - chrono::Duration::days(2);
    assert_eq!(cut, Timestamp { secs: expected.timestamp(), nanos: expected.timestamp_subsec_nanos() });
    assert_eq!(minute_bucket(leap).secs, leap.secs - 59);
}

#[test]
fn readings_become_instants_or_errors() {
    assert_eq!(timestamp_from_reading(Ok((60, 5))), Ok(Timestamp { secs: 60, nanos: 5 }));
    assert_eq!(
        timestamp_from_reading(Ok((59, 1_000_000_000))),
        Ok(Timestamp { secs: 59, nanos: 1_000_000_000 })
    );
    assert_eq!(timestamp_from_reading(Ok((58, 1_000_000_000))), Err(TimestampError::Unrepresentable));
    assert_eq!(timestamp_from_reading(Ok((MAX_TIMESTAMP_SECS + 1, 0))), Err(TimestampError::Unrepresentable));
    assert_eq!(
        timestamp_from_reading(Err("bad".to_string())),
        Err(TimestampError::Invalid("bad".to_string()))
    );
    assert!(is_representable(Timestamp { secs: 0, nanos: 0 }));
    assert!(!is_representable(Timestamp { secs: 0, nanos: 1_500_000_000 }));
}
