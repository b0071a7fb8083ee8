//! What the store keeps and how it is read back: target rows, probe-result rows,
//! per-minute roll-up contributions, and the bounds of the time windows queried.

use vstd::prelude::*;

use crate::models::{
    parse_probe_type, probe_type_named, unknown_probe_type_message, NewTarget, ProbeResult, Target,
};
use crate::text::{trim_text, trimmed};
use crate::time::{
    minute_bucket, parse_timestamp, rfc3339_reading, seconds_before, spec_minute_bucket,
    spec_seconds_before, spec_timestamp_from_reading, Timestamp, TimestampError,
    fits_before, spec_fits_before, MAX_TIMESTAMP_SECS, MIN_TIMESTAMP_SECS,
};

verus! {

/// The columns of a stored target, as the store gives them back.
#[derive(Debug)]
pub struct TargetRow {
    pub id: i64,
    pub name: String,
    pub host: String,
    pub probe_type: String,
    pub port: Option<i64>,
    pub interval_ms: i64,
    pub timeout_ms: i64,
    pub enabled: i64,
    pub group_name: Option<String>,
    pub description: Option<String>,
}

/// `a` and `b` hold the same optional text.
pub open spec fn same_text(a: Option<String>, b: Option<String>) -> bool {
    match (a, b) {
        (Some(x), Some(y)) => x@ == y@,
        (None, None) => true,
        _ => false,
    }
}

/// A target read back from its row: integers are narrowed by truncation, a
/// non-zero `enabled` means enabled, and the probe kind must be a known name.
pub fn target_from_row(row: TargetRow) -> (r: Result<Target, String>)
    ensures
        match (r, probe_type_named(row.probe_type@)) {
            (Ok(t), Some(p)) => {
                &&& t.id == row.id
                &&& t.name@ == row.name@
                &&& t.host@ == row.host@
                &&& t.probe_type == p
                &&& t.port == (match row.port {
                    Some(v) => Some(v as u16),
                    None => None,
                })
                &&& t.interval_ms == row.interval_ms as u64
                &&& t.timeout_ms == row.timeout_ms as u64
                &&& t.enabled == (row.enabled != 0)
                &&& same_text(t.group_name, row.group_name)
                &&& same_text(t.description, row.description)
            },
            (Err(m), None) => m@ == unknown_probe_type_message(row.probe_type@),
            _ => false,
        },
{
    let probe_type = match parse_probe_type(row.probe_type.as_str()) {
        Ok(p) => p,
        Err(m) => return Err(m),
    };
    let port = match row.port {
        #[verifier::truncate]
        Some(v) => Some(v as u16),
        None => None,
    };
    #[verifier::truncate]
    let interval_ms = row.interval_ms as u64;
    #[verifier::truncate]
    let timeout_ms = row.timeout_ms as u64;
    Ok(
        Target {
            id: row.id,
            name: row.name,
            host: row.host,
            probe_type,
            port,
            interval_ms,
            timeout_ms,
            enabled: row.enabled != 0,
            group_name: row.group_name,
            description: row.description,
        },
    )
}

/// The values written for a new or edited target.
#[derive(Debug)]
pub struct TargetValues {
    pub name: String,
    pub host: String,
    pub probe_type: &'static str,
    pub port: Option<i64>,
    pub interval_ms: i64,
    pub timeout_ms: i64,
    pub enabled: i64,
    pub group_name: Option<String>,
    pub description: Option<String>,
}

fn copy_text(value: &Option<String>) -> (r: Option<String>)
    ensures
        same_text(r, *value),
{
    match value {
        Some(s) => Some(s.clone()),
        None => None,
    }
}

/// The values stored for a submitted target, after it passes validation: name
/// and host trimmed, the probe kind by name, integers widened or reinterpreted
/// as the store's signed integers, and `enabled` as 1 or 0.
pub fn target_values(input: &NewTarget) -> (r: Result<TargetValues, String>)
    ensures
        match r {
            Err(m) => input.spec_validation_error() == Some(m@),
            Ok(v) => {
                &&& input.spec_validation_error() is None
                &&& v.name@ == trimmed(input.name@)
                &&& v.host@ == trimmed(input.host@)
                &&& v.probe_type@ == input.probe_type.text()
                &&& v.port == (match input.port {
                    Some(p) => Some(p as i64),
                    None => None,
                })
                &&& v.interval_ms == input.interval_ms as i64
                &&& v.timeout_ms == input.timeout_ms as i64
                &&& v.enabled == (if input.enabled { 1i64 } else { 0i64 })
                &&& same_text(v.group_name, input.group_name)
                &&& same_text(v.description, input.description)
            },
        },
{
    match input.validate() {
        Err(m) => return Err(m),
        Ok(()) => {},
    }
    let port = match input.port {
        Some(p) => Some(p as i64),
        None => None,
    };
    #[verifier::truncate]
    let interval_ms = input.interval_ms as i64;
    #[verifier::truncate]
    let timeout_ms = input.timeout_ms as i64;
    Ok(
        TargetValues {
            name: trim_text(input.name.as_str()),
            host: trim_text(input.host.as_str()),
            probe_type: input.probe_type.as_str(),
            port,
            interval_ms,
            timeout_ms,
            enabled: if input.enabled {
                1
            } else {
                0
            },
            group_name: copy_text(&input.group_name),
            description: copy_text(&input.description),
        },
    )
}

/// The columns of a stored probe result, with the latency already in nanoseconds.
#[derive(Debug)]
pub struct ResultRow {
    pub target_id: i64,
    pub started_at: String,
    pub finished_at: String,
    pub probe_type: String,
    pub resolved_ip: Option<String>,
    pub success: i64,
    pub latency_ns: Option<u64>,
    pub ttl: Option<i64>,
    pub error_kind: Option<String>,
    pub error_message: Option<String>,
}

/// Why a stored row cannot be read back.
#[derive(Debug)]
pub enum RecordError {
    /// A stored instant is not a usable RFC 3339 text.
    Time(TimestampError),
    /// The stored probe kind is unknown; the message.
    ProbeType(String),
}

/// `e` is the error that the reading `reading` of an instant calls for.
pub open spec fn timestamp_error_is(e: TimestampError, reading: Result<Timestamp, Option<Seq<char>>>) -> bool {
    match (e, reading) {
        (TimestampError::Invalid(m), Err(Some(n))) => m@ == n,
        (TimestampError::Unrepresentable, Err(None)) => true,
        _ => false,
    }
}

/// A probe result read back from its row. The start, then the finish, then the
/// probe kind are read, and the first of them that fails decides the error.
pub fn result_from_row(row: ResultRow) -> (r: Result<ProbeResult, RecordError>)
    ensures
        match r {
            Ok(p) => {
                &&& spec_timestamp_from_reading(rfc3339_reading(row.started_at@)) == Ok::<
                    Timestamp,
                    Option<Seq<char>>,
                >(p.started_at)
                &&& spec_timestamp_from_reading(rfc3339_reading(row.finished_at@)) == Ok::<
                    Timestamp,
                    Option<Seq<char>>,
                >(p.finished_at)
                &&& p.started_at.wf()
                &&& p.finished_at.wf()
                &&& probe_type_named(row.probe_type@) == Some(p.probe_type)
                &&& p.target_id == row.target_id
                &&& same_text(p.resolved_ip, row.resolved_ip)
                &&& p.success == (row.success != 0)
                &&& p.latency_ns == row.latency_ns
                &&& p.ttl == (match row.ttl {
                    Some(v) => Some(v as u8),
                    None => None,
                })
                &&& same_text(p.error_kind, row.error_kind)
                &&& same_text(p.error_message, row.error_message)
            },
            Err(RecordError::Time(e)) => {
                let started = spec_timestamp_from_reading(rfc3339_reading(row.started_at@));
                let finished = spec_timestamp_from_reading(rfc3339_reading(row.finished_at@));
                if started is Err {
                    timestamp_error_is(e, started)
                } else {
                    timestamp_error_is(e, finished) && finished is Err
                }
            },
            Err(RecordError::ProbeType(m)) => {
                &&& spec_timestamp_from_reading(rfc3339_reading(row.started_at@)) is Ok
                &&& spec_timestamp_from_reading(rfc3339_reading(row.finished_at@)) is Ok
                &&& probe_type_named(row.probe_type@) is None
                &&& m@ == unknown_probe_type_message(row.probe_type@)
            },
        },
{
    let started_at = match parse_timestamp(row.started_at.as_str()) {
        Ok(t) => t,
        Err(e) => return Err(RecordError::Time(e)),
    };
    let finished_at = match parse_timestamp(row.finished_at.as_str()) {
        Ok(t) => t,
        Err(e) => return Err(RecordError::Time(e)),
    };
    let probe_type = match parse_probe_type(row.probe_type.as_str()) {
        Ok(p) => p,
        Err(m) => return Err(RecordError::ProbeType(m)),
    };
    let ttl = match row.ttl {
        #[verifier::truncate]
        Some(v) => Some(v as u8),
        None => None,
    };
    Ok(
        ProbeResult {
            target_id: row.target_id,
            started_at,
            finished_at,
            probe_type,
            resolved_ip: row.resolved_ip,
            success: row.success != 0,
            latency_ns: row.latency_ns,
            ttl,
            error_kind: row.error_kind,
            error_message: row.error_message,
        },
    )
}

/// Most results that a recent-results query returns, and the default.
pub const MAX_RECENT_RESULTS: i64 = 2000i64;

/// The row limit of a recent-results query: `limit` clamped to `1..=2000`.
pub fn recent_limit(limit: i64) -> (r: i64)
    ensures
        r == (if limit < 1 { 1 } else if limit > MAX_RECENT_RESULTS { MAX_RECENT_RESULTS } else { limit }),
{
    if limit < 1 {
        1
    } else if limit > MAX_RECENT_RESULTS {
        MAX_RECENT_RESULTS
    } else {
        limit
    }
}

/// Longest window a query may cover, in minutes (30 days).
pub const MAX_WINDOW_MINUTES: i64 = 43_200i64;

/// Window length actually used: `minutes` clamped to `1..=43200`.
pub open spec fn window_minutes(minutes: i64) -> i64 {
    if minutes < 1 {
        1
    } else if minutes > MAX_WINDOW_MINUTES {
        MAX_WINDOW_MINUTES
    } else {
        minutes
    }
}

/// The window of `minutes` ending at `end_at` starts at a representable instant.
pub open spec fn spec_window_fits(minutes: i64, end_at: Timestamp) -> bool {
    spec_fits_before(end_at, window_minutes(minutes) * 60)
}

/// Whether the window of `minutes` ending at `end_at` starts at a representable instant.
pub fn window_fits(minutes: i64, end_at: Timestamp) -> (r: bool)
    requires
        end_at.wf(),
    ensures
        r == spec_window_fits(minutes, end_at),
        1 <= minutes <= 43_200 ==> r == spec_fits_before(end_at, minutes * 60),
{
    let m: i64 = if minutes < 1 {
        1
    } else if minutes > MAX_WINDOW_MINUTES {
        MAX_WINDOW_MINUTES
    } else {
        minutes
    };
    fits_before(end_at, m * 60)
}

/// First and last instant of a query window of `minutes` (clamped to
/// `1..=43200`) that ends at `end_at`; both bounds are inclusive.
pub fn window_bounds(minutes: i64, end_at: Timestamp) -> (r: (Timestamp, Timestamp))
    requires
        end_at.wf(),
        spec_window_fits(minutes, end_at),
    ensures
        r.0 == spec_seconds_before(end_at, window_minutes(minutes) * 60),
        r.1 == end_at,
        r.0.wf(),
        1 <= minutes <= 43_200 ==> r.0 == spec_seconds_before(end_at, minutes * 60),
        minutes < 1 ==> r.0 == spec_seconds_before(end_at, 60int),
        minutes > 43_200 ==> r.0 == spec_seconds_before(end_at, 2_592_000int),
{
    let m: i64 = if minutes < 1 {
        1
    } else if minutes > MAX_WINDOW_MINUTES {
        MAX_WINDOW_MINUTES
    } else {
        minutes
    };
    (seconds_before(end_at, m * 60), end_at)
}

/// Seconds in a day.
pub const SECONDS_PER_DAY: i64 = 86_400i64;

/// Retention actually applied: at least one day.
pub open spec fn retention_days_used(retention_days: i64) -> i64 {
    if retention_days < 1 {
        1
    } else {
        retention_days
    }
}

/// The retention cutoff before `now` is a representable instant.
pub open spec fn spec_retention_fits(now: Timestamp, retention_days: i64) -> bool {
    spec_fits_before(now, retention_days_used(retention_days) * SECONDS_PER_DAY)
}

/// Whether the retention cutoff before `now` is a representable instant.
pub fn retention_fits(now: Timestamp, retention_days: i64) -> (r: bool)
    requires
        now.wf(),
    ensures
        r == spec_retention_fits(now, retention_days),
{
    let days: i64 = if retention_days < 1 {
        1
    } else {
        retention_days
    };
    if days > (MAX_TIMESTAMP_SECS - MIN_TIMESTAMP_SECS + 1) / SECONDS_PER_DAY {
        return false;
    }
    fits_before(now, days * SECONDS_PER_DAY)
}

/// Results that finished before this instant are old enough to be deleted:
/// `now` less `retention_days` (at least one) days.
pub fn retention_cutoff(now: Timestamp, retention_days: i64) -> (r: Timestamp)
    requires
        now.wf(),
        spec_retention_fits(now, retention_days),
    ensures
        r == spec_seconds_before(now, retention_days_used(retention_days) * SECONDS_PER_DAY),
        r.wf(),
{
    let days: i64 = if retention_days < 1 {
        1
    } else {
        retention_days
    };
    seconds_before(now, days * SECONDS_PER_DAY)
}

/// What one probe result adds to its per-minute roll-up row (apart from latency sums).
#[derive(Clone, Copy, Debug, PartialEq, Eq, Structural)]
pub struct RollupDelta {
    pub target_id: i64,
    pub bucket_start: Timestamp,
    pub success_count: i64,
    pub failure_count: i64,
    pub latency_samples: i64,
}

/// The roll-up contribution of `result`: its minute, one success or one failure,
/// and one latency sample when a latency was measured.
pub fn rollup_delta(result: &ProbeResult) -> (r: RollupDelta)
    requires
        result.finished_at.wf(),
    ensures
        r.target_id == result.target_id,
        r.bucket_start == spec_minute_bucket(result.finished_at),
        r.success_count == (if result.success { 1i64 } else { 0i64 }),
        r.failure_count == (if result.success { 0i64 } else { 1i64 }),
        r.latency_samples == (if result.latency_ns is Some { 1i64 } else { 0i64 }),
{
    RollupDelta {
        target_id: result.target_id,
        bucket_start: minute_bucket(result.finished_at),
        success_count: if result.success {
            1
        } else {
            0
        },
        failure_count: if result.success {
            0
        } else {
            1
        },
        latency_samples: if result.latency_ns.is_some() {
            1
        } else {
            0
        },
    }
}


/// Windows keep the length asked for when it lies in `1..=43200` minutes; only
/// shorter ones become one minute and longer ones thirty days.
pub proof fn lemma_window_length_is_kept(minutes: i64)
    ensures
        1 <= minutes <= 43_200 ==> window_minutes(minutes) == minutes,
        minutes < 1 ==> window_minutes(minutes) == 1,
        minutes > 43_200 ==> window_minutes(minutes) == 43_200,
        1 <= window_minutes(minutes) <= 43_200,
{
}

} // verus!
