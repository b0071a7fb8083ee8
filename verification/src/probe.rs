//! Timing of probes and the results that each way a probe can end produces.

use vstd::prelude::*;

use crate::models::{ProbeResult, Target, MIN_INTERVAL_MS};
use crate::time::Timestamp;

verus! {

/// How long one probe of `target` may take, in milliseconds (at least one).
pub fn timeout_duration(target: &Target) -> (r: u64)
    ensures
        r == (if target.timeout_ms < 1 { 1 } else { target.timeout_ms }),
{
    if target.timeout_ms < 1 {
        1
    } else {
        target.timeout_ms
    }
}

/// Pause between two probes of `target`, in milliseconds (at least 250).
pub fn poll_interval_ms(target: &Target) -> (r: u64)
    ensures
        r == (if target.interval_ms < MIN_INTERVAL_MS { MIN_INTERVAL_MS } else { target.interval_ms }),
        r >= MIN_INTERVAL_MS,
{
    if target.interval_ms < MIN_INTERVAL_MS {
        MIN_INTERVAL_MS
    } else {
        target.interval_ms
    }
}

/// Identifier of the echo requests sent for a target: its id truncated to 16 bits, plus one, wrapping.
pub fn echo_identifier(target_id: i64) -> (r: u16)
    ensures
        r as int == ((target_id as u16) as int + 1) % 65536,
{
    #[verifier::truncate]
    let low = target_id as u16;
    if low == 65535 {
        0
    } else {
        low + 1
    }
}

/// `r` is a failed outcome of `target` with the given parts.
pub open spec fn is_failure(
    r: ProbeResult,
    target: &Target,
    started_at: Timestamp,
    finished_at: Timestamp,
    kind: Seq<char>,
    message: Seq<char>,
    resolved_ip: Option<Seq<char>>,
) -> bool {
    &&& r.target_id == target.id
    &&& r.started_at == started_at
    &&& r.finished_at == finished_at
    &&& r.probe_type == target.probe_type
    &&& (match (r.resolved_ip, resolved_ip) {
        (Some(a), Some(b)) => a@ == b,
        (None, None) => true,
        _ => false,
    })
    &&& !r.success
    &&& r.latency_ns is None
    &&& r.ttl is None
    &&& (r.error_kind matches Some(k) && k@ == kind)
    &&& (r.error_message matches Some(m) && m@ == message)
}

/// `r` is a successful outcome of `target` with the given parts.
pub open spec fn is_success(
    r: ProbeResult,
    target: &Target,
    started_at: Timestamp,
    finished_at: Timestamp,
    resolved_ip: Seq<char>,
    latency_ns: u64,
    ttl: Option<u8>,
) -> bool {
    &&& r.target_id == target.id
    &&& r.started_at == started_at
    &&& r.finished_at == finished_at
    &&& r.probe_type == target.probe_type
    &&& (r.resolved_ip matches Some(a) && a@ == resolved_ip)
    &&& r.success
    &&& r.latency_ns == Some(latency_ns)
    &&& r.ttl == ttl
    &&& r.error_kind is None
    &&& r.error_message is None
}

/// A failed outcome of `target`: error kind `kind`, message `message`.
pub fn failure_result(
    target: &Target,
    started_at: Timestamp,
    finished_at: Timestamp,
    kind: &str,
    message: String,
    resolved_ip: Option<String>,
) -> (r: ProbeResult)
    ensures
        is_failure(
            r,
            target,
            started_at,
            finished_at,
            kind@,
            message@,
            match resolved_ip {
                Some(ip) => Some(ip@),
                None => None,
            },
        ),
{
    ProbeResult {
        target_id: target.id,
        started_at,
        finished_at,
        probe_type: target.probe_type,
        resolved_ip,
        success: false,
        latency_ns: None,
        ttl: None,
        error_kind: Some(String::from_str(kind)),
        error_message: Some(message),
    }
}

/// A successful outcome of `target`.
pub fn success_result(
    target: &Target,
    started_at: Timestamp,
    finished_at: Timestamp,
    resolved_ip: String,
    latency_ns: u64,
    ttl: Option<u8>,
) -> (r: ProbeResult)
    ensures
        is_success(r, target, started_at, finished_at, resolved_ip@, latency_ns, ttl),
{
    ProbeResult {
        target_id: target.id,
        started_at,
        finished_at,
        probe_type: target.probe_type,
        resolved_ip: Some(resolved_ip),
        success: true,
        latency_ns: Some(latency_ns),
        ttl,
        error_kind: None,
        error_message: None,
    }
}

/// How a TCP connection attempt ended.
#[derive(Debug)]
pub enum TcpOutcome {
    /// The target has no port to connect to.
    MissingPort,
    /// The host name did not resolve; the resolver's message.
    ResolveFailed(String),
    /// The connection was accepted after `latency_ns` nanoseconds.
    Connected { ip: String, latency_ns: u64 },
    /// The connection was refused or failed; the error's message.
    ConnectFailed { ip: String, message: String },
    /// No connection within the timeout.
    TimedOut { ip: String },
}

/// The result of a TCP probe of `target` that ended as `outcome`; a probe
/// ends for want of a port exactly when the target has none.
pub fn tcp_probe_result(
    target: &Target,
    started_at: Timestamp,
    finished_at: Timestamp,
    outcome: TcpOutcome,
) -> (r: ProbeResult)
    requires
        (outcome is MissingPort) <==> target.port is None,
    ensures
        match outcome {
            TcpOutcome::MissingPort => is_failure(
                r,
                target,
                started_at,
                finished_at,
                "validation"@,
                "tcp target is missing port"@,
                None,
            ),
            TcpOutcome::ResolveFailed(m) => is_failure(
                r,
                target,
                started_at,
                finished_at,
                "resolve"@,
                m@,
                None,
            ),
            TcpOutcome::Connected { ip, latency_ns } => is_success(
                r,
                target,
                started_at,
                finished_at,
                ip@,
                latency_ns,
                None,
            ),
            TcpOutcome::ConnectFailed { ip, message } => is_failure(
                r,
                target,
                started_at,
                finished_at,
                "connect"@,
                message@,
                Some(ip@),
            ),
            TcpOutcome::TimedOut { ip } => is_failure(
                r,
                target,
                started_at,
                finished_at,
                "timeout"@,
                "tcp probe timed out"@,
                Some(ip@),
            ),
        },
{
    match outcome {
        TcpOutcome::MissingPort => failure_result(
            target,
            started_at,
            finished_at,
            "validation",
            String::from_str("tcp target is missing port"),
            None,
        ),
        TcpOutcome::ResolveFailed(m) => failure_result(
            target,
            started_at,
            finished_at,
            "resolve",
            m,
            None,
        ),
        TcpOutcome::Connected { ip, latency_ns } => success_result(
            target,
            started_at,
            finished_at,
            ip,
            latency_ns,
            None,
        ),
        TcpOutcome::ConnectFailed { ip, message } => failure_result(
            target,
            started_at,
            finished_at,
            "connect",
            message,
            Some(ip),
        ),
        TcpOutcome::TimedOut { ip } => failure_result(
            target,
            started_at,
            finished_at,
            "timeout",
            String::from_str("tcp probe timed out"),
            Some(ip),
        ),
    }
}

/// How an ICMP echo attempt ended.
#[derive(Debug)]
pub enum IcmpOutcome {
    /// The host name did not resolve; the resolver's message.
    ResolveFailed(String),
    /// No ICMP socket could be opened; the error's message.
    SocketFailed { ip: String, message: String },
    /// An echo reply came back after `latency_ns` nanoseconds (with its TTL over IPv4).
    Replied { ip: String, latency_ns: u64, ttl: Option<u8> },
    /// The echo failed or timed out; the error's message.
    PingFailed { ip: String, message: String },
}

/// The result of an ICMP probe of `target` that ended as `outcome`.
pub fn icmp_probe_result(
    target: &Target,
    started_at: Timestamp,
    finished_at: Timestamp,
    outcome: IcmpOutcome,
) -> (r: ProbeResult)
    ensures
        match outcome {
            IcmpOutcome::ResolveFailed(m) => is_failure(
                r,
                target,
                started_at,
                finished_at,
                "resolve"@,
                m@,
                None,
            ),
            IcmpOutcome::SocketFailed { ip, message } => is_failure(
                r,
                target,
                started_at,
                finished_at,
                "socket"@,
                message@,
                Some(ip@),
            ),
            IcmpOutcome::Replied { ip, latency_ns, ttl } => is_success(
                r,
                target,
                started_at,
                finished_at,
                ip@,
                latency_ns,
                ttl,
            ),
            IcmpOutcome::PingFailed { ip, message } => is_failure(
                r,
                target,
                started_at,
                finished_at,
                "icmp"@,
                message@,
                Some(ip@),
            ),
        },
{
    match outcome {
        IcmpOutcome::ResolveFailed(m) => failure_result(
            target,
            started_at,
            finished_at,
            "resolve",
            m,
            None,
        ),
        IcmpOutcome::SocketFailed { ip, message } => failure_result(
            target,
            started_at,
            finished_at,
            "socket",
            message,
            Some(ip),
        ),
        IcmpOutcome::Replied { ip, latency_ns, ttl } => success_result(
            target,
            started_at,
            finished_at,
            ip,
            latency_ns,
            ttl,
        ),
        IcmpOutcome::PingFailed { ip, message } => failure_result(
            target,
            started_at,
            finished_at,
            "icmp",
            message,
            Some(ip),
        ),
    }
}

} // verus!
