//! The monitor's data: probe kinds, target definitions and their validation,
//! probe outcomes and grouped failure events.

use vstd::prelude::*;

use crate::text::{is_blank, text_eq, text_is_blank};
use crate::time::Timestamp;

verus! {

/// How a target is probed.
#[derive(Clone, Copy, Debug, PartialEq, Eq, Structural)]
pub enum ProbeType {
    Icmp,
    Tcp,
}

impl ProbeType {
    /// The stored and serialised name of the probe kind.
    pub open spec fn text(self) -> Seq<char> {
        match self {
            ProbeType::Icmp => "icmp"@,
            ProbeType::Tcp => "tcp"@,
        }
    }

    /// The name of the probe kind: `"icmp"` or `"tcp"`.
    pub fn as_str(self) -> (r: &'static str)
        ensures
            r@ == self.text(),
    {
        match self {
            ProbeType::Icmp => "icmp",
            ProbeType::Tcp => "tcp",
        }
    }
}

/// The probe kind whose name is `text`, if any.
pub open spec fn probe_type_named(text: Seq<char>) -> Option<ProbeType> {
    if text == "icmp"@ {
        Some(ProbeType::Icmp)
    } else if text == "tcp"@ {
        Some(ProbeType::Tcp)
    } else {
        None
    }
}

/// Error text for a stored probe kind that is neither `icmp` nor `tcp`.
pub open spec fn unknown_probe_type_message(value: Seq<char>) -> Seq<char> {
    "unknown probe type: "@ + value
}

/// Reads a stored probe-kind name back.
pub fn parse_probe_type(value: &str) -> (r: Result<ProbeType, String>)
    ensures
        match r {
            Ok(p) => probe_type_named(value@) == Some(p),
            Err(m) => probe_type_named(value@) is None && m@ == unknown_probe_type_message(value@),
        },
{
    if text_eq(value, "icmp") {
        Ok(ProbeType::Icmp)
    } else if text_eq(value, "tcp") {
        Ok(ProbeType::Tcp)
    } else {
        let mut message = String::from_str("unknown probe type: ");
        message.append(value);
        Err(message)
    }
}

/// Reading back the name of a probe kind gives that kind.
pub proof fn lemma_probe_type_name_round_trip(p: ProbeType)
    ensures
        probe_type_named(p.text()) == Some(p),
{
    reveal_strlit("icmp");
    reveal_strlit("tcp");
    assert("icmp"@.len() == 4);
    assert("tcp"@.len() == 3);
}

/// Health of a target as shown to users.
#[derive(Clone, Copy, Debug, PartialEq, Eq, Structural)]
pub enum TargetState {
    Healthy,
    Warning,
    Down,
    Disabled,
}

impl TargetState {
    /// Lower-case name of the state, as stored.
    pub open spec fn text(self) -> Seq<char> {
        match self {
            TargetState::Healthy => "healthy"@,
            TargetState::Warning => "warning"@,
            TargetState::Down => "down"@,
            TargetState::Disabled => "disabled"@,
        }
    }

    /// Lower-case name of the state: `healthy`, `warning`, `down` or `disabled`.
    pub fn label(self) -> (r: &'static str)
        ensures
            r@ == self.text(),
    {
        match self {
            TargetState::Healthy => "healthy",
            TargetState::Warning => "warning",
            TargetState::Down => "down",
            TargetState::Disabled => "disabled",
        }
    }
}

/// A target as a user submits it, before it has an id.
#[derive(Debug)]
pub struct NewTarget {
    pub name: String,
    pub host: String,
    pub probe_type: ProbeType,
    pub port: Option<u16>,
    pub interval_ms: u64,
    pub timeout_ms: u64,
    pub enabled: bool,
    pub group_name: Option<String>,
    pub description: Option<String>,
}

/// Shortest probe interval that a target may ask for.
pub const MIN_INTERVAL_MS: u64 = 250u64;

impl NewTarget {
    /// The first rule that the submission breaks, as its message; `None` if it is valid.
    pub open spec fn spec_validation_error(&self) -> Option<Seq<char>> {
        if is_blank(self.name@) {
            Some("name is required"@)
        } else if is_blank(self.host@) {
            Some("host is required"@)
        } else if self.probe_type == ProbeType::Tcp && self.port is None {
            Some("tcp targets require a port"@)
        } else if self.probe_type == ProbeType::Icmp && self.port is Some {
            Some("icmp targets must not set a port"@)
        } else if self.interval_ms < MIN_INTERVAL_MS {
            Some("interval_ms must be at least 250"@)
        } else if self.timeout_ms == 0 {
            Some("timeout_ms must be greater than 0"@)
        } else {
            None
        }
    }

    /// The rules a submission must meet: a name and a host that are not blank, a
    /// port exactly for TCP targets, an interval of at least 250 ms and a
    /// non-zero timeout.
    pub open spec fn spec_is_valid(&self) -> bool {
        &&& !is_blank(self.name@)
        &&& !is_blank(self.host@)
        &&& (self.port is Some <==> self.probe_type == ProbeType::Tcp)
        &&& self.interval_ms >= 250
        &&& self.timeout_ms > 0
    }

    /// Checks the submission: a non-blank name and host, a port exactly for TCP
    /// targets, an interval of at least 250 ms and a non-zero timeout.
    pub fn validate(&self) -> (r: Result<(), String>)
        ensures
            match r {
                Ok(()) => self.spec_validation_error() is None,
                Err(m) => self.spec_validation_error() == Some(m@),
            },
            r is Ok <==> self.spec_is_valid(),
    {
        proof {
            lemma_validation_accepts_exactly(self);
        }
        if text_is_blank(self.name.as_str()) {
            return Err(String::from_str("name is required"));
        }
        if text_is_blank(self.host.as_str()) {
            return Err(String::from_str("host is required"));
        }
        if self.probe_type == ProbeType::Tcp && self.port.is_none() {
            return Err(String::from_str("tcp targets require a port"));
        }
        if self.probe_type == ProbeType::Icmp && self.port.is_some() {
            return Err(String::from_str("icmp targets must not set a port"));
        }
        if self.interval_ms < MIN_INTERVAL_MS {
            return Err(String::from_str("interval_ms must be at least 250"));
        }
        if self.timeout_ms == 0 {
            return Err(String::from_str("timeout_ms must be greater than 0"));
        }
        Ok(())
    }
}

/// A stored target.
#[derive(Debug)]
pub struct Target {
    pub id: i64,
    pub name: String,
    pub host: String,
    pub probe_type: ProbeType,
    pub port: Option<u16>,
    pub interval_ms: u64,
    pub timeout_ms: u64,
    pub enabled: bool,
    pub group_name: Option<String>,
    pub description: Option<String>,
}

/// The outcome of one probe. Latency is kept in whole nanoseconds.
#[derive(Debug)]
pub struct ProbeResult {
    pub target_id: i64,
    pub started_at: Timestamp,
    pub finished_at: Timestamp,
    pub probe_type: ProbeType,
    pub resolved_ip: Option<String>,
    pub success: bool,
    pub latency_ns: Option<u64>,
    pub ttl: Option<u8>,
    pub error_kind: Option<String>,
    pub error_message: Option<String>,
}

/// A run of failed probes of one target, each within the allowed gap of the previous one.
#[derive(Clone, Copy, Debug, PartialEq, Eq, Structural)]
pub struct FailureEvent {
    pub target_id: i64,
    pub started_at: Timestamp,
    pub ended_at: Timestamp,
    pub failure_count: u64,
    pub duration_seconds: i64,
}

/// The probe that picks ICMP or TCP by the target's probe kind.
#[derive(Clone, Copy, Debug, Default)]
pub struct DefaultProbe;


/// A submission is refused exactly when it breaks one of the rules: a blank
/// name or host, a port on an ICMP target or none on a TCP target, an interval
/// under 250 ms or a zero timeout. Nothing else (such as a timeout longer than
/// the interval) makes it invalid.
pub proof fn lemma_validation_accepts_exactly(t: &NewTarget)
    ensures
        t.spec_validation_error() is None <==> (!is_blank(t.name@) && !is_blank(t.host@) && (
        t.port is Some <==> t.probe_type == ProbeType::Tcp) && t.interval_ms >= 250
            && t.timeout_ms > 0),
{
}

} // verus!
