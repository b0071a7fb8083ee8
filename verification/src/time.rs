//! Instants on the UTC time line, held as whole seconds since the Unix epoch
//! and a sub-second nanosecond part, within the range that the calendar
//! library of the service can represent. As in that library, a leap second
//! is the 59th second of a minute carrying a second billion of nanoseconds.

use vstd::prelude::*;

verus! {

/// Earliest instant that the calendar library represents, in seconds since the epoch.
pub const MIN_TIMESTAMP_SECS: i64 = -8334601228800i64;

/// Latest whole second that the calendar library represents, in seconds since the epoch.
pub const MAX_TIMESTAMP_SECS: i64 = 8210266876799i64;

pub const NANOS_PER_SECOND: u32 = 1_000_000_000u32;

/// Sub-second part of a leap second's last nanosecond, plus one.
pub const LEAP_NANOS_LIMIT: u32 = 2_000_000_000u32;

/// An instant: `secs` whole seconds after the Unix epoch plus `nanos` nanoseconds
/// (from one billion on, inside a leap second that follows second `secs`).
#[derive(Clone, Copy, Debug, PartialEq, Eq, Structural)]
pub struct Timestamp {
    pub secs: i64,
    pub nanos: u32,
}

impl Timestamp {
    /// The instant lies in the representable range; a leap second only ends a minute.
    pub open spec fn wf(self) -> bool {
        &&& MIN_TIMESTAMP_SECS <= self.secs <= MAX_TIMESTAMP_SECS
        &&& self.nanos < LEAP_NANOS_LIMIT
        &&& self.nanos >= NANOS_PER_SECOND ==> self.secs % 60 == 59
    }

    /// The instant lies inside a leap second.
    pub open spec fn is_leap(self) -> bool {
        self.nanos >= NANOS_PER_SECOND
    }
}

/// Second of the UTC day of an epoch second.
pub open spec fn second_of_day(secs: int) -> int {
    secs % 86400
}

/// Nanoseconds from `earlier` to `later` as the calendar library counts them:
/// the difference of the seconds and of the sub-second parts, where a leap
/// second counts as one more second once the other instant is later in its day.
pub open spec fn span_nanos(later: Timestamp, earlier: Timestamp) -> int {
    let adjust = if second_of_day(later.secs as int) > second_of_day(earlier.secs as int)
        && earlier.is_leap() {
        1int
    } else if second_of_day(later.secs as int) < second_of_day(earlier.secs as int)
        && later.is_leap() {
        -1int
    } else {
        0int
    };
    (later.secs - earlier.secs + adjust) * 1_000_000_000 + later.nanos - earlier.nanos
}

/// `a / b` rounded toward zero (for `b > 0`).
pub open spec fn div_toward_zero(a: int, b: int) -> int {
    if a >= 0 {
        a / b
    } else {
        -((-a) / b)
    }
}

/// Whole seconds elapsed from `earlier` to `later`, rounded toward zero
/// (negative when `later` precedes `earlier`).
pub open spec fn spec_seconds_between(later: Timestamp, earlier: Timestamp) -> int {
    div_toward_zero(span_nanos(later, earlier), 1_000_000_000)
}

/// Spans between representable instants stay far inside `i64` seconds.
pub proof fn lemma_seconds_between_bounded(a: Timestamp, b: Timestamp)
    requires
        a.wf(),
        b.wf(),
    ensures
        -20_000_000_000_000 * 1_000_000_000 <= span_nanos(a, b) <= 20_000_000_000_000
            * 1_000_000_000,
        -20_000_000_000_000 <= spec_seconds_between(a, b) <= 20_000_000_000_000,
{
    let d = span_nanos(a, b);
    let adjust = (a.secs - b.secs) * 1_000_000_000 + a.nanos - b.nanos;
    assert(d - adjust == 1_000_000_000 || d - adjust == -1_000_000_000 || d == adjust);
    assert(-20_000_000_000_000 * 1_000_000_000 <= d <= 20_000_000_000_000 * 1_000_000_000)
        by (nonlinear_arith)
        requires
            adjust == (a.secs - b.secs) * 1_000_000_000 + a.nanos - b.nanos,
            d - adjust == 1_000_000_000 || d - adjust == -1_000_000_000 || d == adjust,
            -8334601228800 <= a.secs <= 8210266876799,
            -8334601228800 <= b.secs <= 8210266876799,
            0 <= a.nanos < 2_000_000_000,
            0 <= b.nanos < 2_000_000_000,
    ;
    assert(-20_000_000_000_000 <= div_toward_zero(d, 1_000_000_000) <= 20_000_000_000_000)
        by (nonlinear_arith)
        requires
            -20_000_000_000_000 * 1_000_000_000 <= d <= 20_000_000_000_000 * 1_000_000_000,
            div_toward_zero(d, 1_000_000_000) == (if d >= 0 {
                d / 1_000_000_000
            } else {
                -((-d) / 1_000_000_000)
            }),
    ;
}

/// Whole seconds from `earlier` to `later`, rounded toward zero.
pub fn seconds_between(later: Timestamp, earlier: Timestamp) -> (r: i64)
    requires
        later.wf(),
        earlier.wf(),
    ensures
        r == spec_seconds_between(later, earlier),
{
    let day_later: i64 = later.secs.checked_rem_euclid(86400).unwrap();
    let day_earlier: i64 = earlier.secs.checked_rem_euclid(86400).unwrap();
    let adjust: i64 = if day_later > day_earlier && earlier.nanos >= NANOS_PER_SECOND {
        1
    } else if day_later < day_earlier && later.nanos >= NANOS_PER_SECOND {
        -1
    } else {
        0
    };
    let secs: i64 = later.secs - earlier.secs + adjust;
    let total: i128 = secs as i128 * 1_000_000_000 + later.nanos as i128 - earlier.nanos as i128;
    assert(total == span_nanos(later, earlier));
    proof {
        lemma_seconds_between_bounded(later, earlier);
    }
    if total >= 0 {
        let q: u128 = total as u128 / 1_000_000_000;
        assert(q <= 0x7fff_ffff_ffff_ffff) by (nonlinear_arith)
            requires
                q == total / 1_000_000_000,
                0 <= total <= 20_000_000_000_000 * 1_000_000_000,
        ;
        q as i64
    } else {
        let q: u128 = (0 - total) as u128 / 1_000_000_000;
        assert(q <= 0x7fff_ffff_ffff_ffff) by (nonlinear_arith)
            requires
                q == (-total) / 1_000_000_000,
                0 < -total <= 20_000_000_000_000 * 1_000_000_000,
        ;
        0 - q as i64
    }
}

/// Start of the UTC minute that contains `t`.
pub open spec fn spec_minute_bucket(t: Timestamp) -> Timestamp {
    Timestamp { secs: (t.secs - t.secs % 60) as i64, nanos: 0 }
}

/// Start of the UTC minute that contains `value` (seconds floored to a multiple of 60).
pub fn minute_bucket(value: Timestamp) -> (r: Timestamp)
    requires
        value.wf(),
    ensures
        r == spec_minute_bucket(value),
        r.wf(),
        r.secs % 60 == 0,
        r.secs <= value.secs < r.secs + 60,
{
    let rem: i64 = value.secs.checked_rem_euclid(60).unwrap();
    let secs: i64 = value.secs - rem;
    proof {
        assert(MIN_TIMESTAMP_SECS % 60 == 0);
        assert(secs % 60 == 0) by (nonlinear_arith)
            requires
                secs == value.secs - value.secs % 60,
        ;
        assert(secs >= MIN_TIMESTAMP_SECS) by (nonlinear_arith)
            requires
                secs % 60 == 0,
                MIN_TIMESTAMP_SECS % 60 == 0,
                value.secs >= MIN_TIMESTAMP_SECS,
                secs == value.secs - value.secs % 60,
                0 <= value.secs % 60 < 60,
        ;
    }
    Timestamp { secs, nanos: 0 }
}

/// `t` moved back by `seconds` (at least one) whole seconds; from inside a
/// leap second the move starts at the following second, as in the calendar library.
pub open spec fn spec_seconds_before(t: Timestamp, seconds: int) -> Timestamp {
    if t.is_leap() {
        Timestamp { secs: (t.secs + 1 - seconds) as i64, nanos: (t.nanos - NANOS_PER_SECOND) as u32 }
    } else {
        Timestamp { secs: (t.secs - seconds) as i64, nanos: t.nanos }
    }
}

/// `t` moved back by `seconds` is still a representable instant.
pub open spec fn spec_fits_before(t: Timestamp, seconds: int) -> bool {
    t.secs + (if t.is_leap() { 1int } else { 0int }) - seconds >= MIN_TIMESTAMP_SECS
}

/// Whether `t` moved back by `seconds` is still a representable instant.
pub fn fits_before(t: Timestamp, seconds: i64) -> (r: bool)
    requires
        t.wf(),
        0 < seconds,
    ensures
        r == spec_fits_before(t, seconds as int),
{
    let lift: i64 = if t.nanos >= NANOS_PER_SECOND {
        1
    } else {
        0
    };
    seconds <= t.secs + lift - MIN_TIMESTAMP_SECS
}

/// `t` moved back by `seconds` whole seconds; the result must stay representable.
pub fn seconds_before(t: Timestamp, seconds: i64) -> (r: Timestamp)
    requires
        t.wf(),
        0 < seconds,
        spec_fits_before(t, seconds as int),
    ensures
        r == spec_seconds_before(t, seconds as int),
        r.wf(),
        !r.is_leap(),
{
    if t.nanos >= NANOS_PER_SECOND {
        Timestamp { secs: t.secs + 1 - seconds, nanos: t.nanos - NANOS_PER_SECOND }
    } else {
        Timestamp { secs: t.secs - seconds, nanos: t.nanos }
    }
}

/// `a` is strictly earlier than `b`, comparing seconds, then the sub-second part.
pub fn is_before(a: Timestamp, b: Timestamp) -> (r: bool)
    ensures
        r == (a.secs < b.secs || (a.secs == b.secs && a.nanos < b.nanos)),
{
    a.secs < b.secs || (a.secs == b.secs && a.nanos < b.nanos)
}

/// What the calendar library makes of an RFC 3339 text: on success, the instant
/// as whole seconds since the epoch and its sub-second nanoseconds (at least
/// one billion inside a leap second); on failure, the library's error message.
pub uninterp spec fn rfc3339_reading(text: Seq<char>) -> Result<(i64, u32), Seq<char>>;

/// Calls `chrono::DateTime::parse_from_rfc3339` and reads the parsed instant back as
/// `timestamp()` and `timestamp_subsec_nanos()`, or the error's `Display` text.
/// Claims only that the outcome is a function of the text, named `rfc3339_reading`.
#[verifier::external_body]
fn read_rfc3339(text: &str) -> (r: Result<(i64, u32), String>)
    ensures
        match r {
            Ok(parts) => rfc3339_reading(text@) == Ok::<(i64, u32), Seq<char>>(parts),
            Err(message) => rfc3339_reading(text@) == Err::<(i64, u32), Seq<char>>(message@),
        },
{
    match chrono::DateTime::parse_from_rfc3339(text) {
        Ok(parsed) => Ok((parsed.timestamp(), parsed.timestamp_subsec_nanos())),
        Err(error) => Err(error.to_string()),
    }
}

/// Why an RFC 3339 text gives no usable instant.
#[derive(Debug, PartialEq, Eq)]
pub enum TimestampError {
    /// The text is not RFC 3339; the calendar library's message.
    Invalid(String),
    /// The reading lies outside what instants here hold (which the calendar
    /// library does not produce).
    Unrepresentable,
}

/// The instant that an RFC 3339 reading denotes, given the library's reading.
pub open spec fn spec_timestamp_from_reading(
    reading: Result<(i64, u32), Seq<char>>,
) -> Result<Timestamp, Option<Seq<char>>> {
    match reading {
        Err(message) => Err(Some(message)),
        Ok((secs, nanos)) => {
            if (Timestamp { secs, nanos }).wf() {
                Ok(Timestamp { secs, nanos })
            } else {
                Err(None)
            }
        },
    }
}

/// The character view of a calendar reading as the calendar library returns it.
pub open spec fn reading_view(reading: Result<(i64, u32), String>) -> Result<(i64, u32), Seq<char>> {
    match reading {
        Ok(parts) => Ok(parts),
        Err(message) => Err(message@),
    }
}

/// `r` is the outcome that the instant reading `expected` calls for.
pub open spec fn matches_reading(
    r: Result<Timestamp, TimestampError>,
    expected: Result<Timestamp, Option<Seq<char>>>,
) -> bool {
    match (r, expected) {
        (Ok(t), Ok(u)) => t == u && t.wf(),
        (Err(TimestampError::Invalid(m)), Err(Some(n))) => m@ == n,
        (Err(TimestampError::Unrepresentable), Err(None)) => true,
        _ => false,
    }
}

/// The instant that a calendar reading denotes: the library's error when it
/// failed, the instant when it lies in the representable range (a leap second
/// only at the end of a minute), `Unrepresentable` otherwise.
pub fn timestamp_from_reading(reading: Result<(i64, u32), String>) -> (r: Result<
    Timestamp,
    TimestampError,
>)
    ensures
        matches_reading(r, spec_timestamp_from_reading(reading_view(reading))),
{
    match reading {
        Err(message) => Err(TimestampError::Invalid(message)),
        Ok((secs, nanos)) => {
            let in_range = MIN_TIMESTAMP_SECS <= secs && secs <= MAX_TIMESTAMP_SECS;
            let leap_ok = nanos < NANOS_PER_SECOND || (nanos < LEAP_NANOS_LIMIT
                && secs.checked_rem_euclid(60).unwrap() == 59);
            if in_range && leap_ok {
                Ok(Timestamp { secs, nanos })
            } else {
                Err(TimestampError::Unrepresentable)
            }
        },
    }
}

/// Parses an RFC 3339 text (any offset, leap seconds included) into an instant.
pub fn parse_timestamp(text: &str) -> (r: Result<Timestamp, TimestampError>)
    ensures
        matches_reading(r, spec_timestamp_from_reading(rfc3339_reading(text@))),
{
    let reading = read_rfc3339(text);
    proof {
        assert(reading_view(reading) == rfc3339_reading(text@));
    }
    timestamp_from_reading(reading)
}

/// Whether `t` is a representable instant.
pub fn is_representable(t: Timestamp) -> (r: bool)
    ensures
        r == t.wf(),
{
    let in_range = MIN_TIMESTAMP_SECS <= t.secs && t.secs <= MAX_TIMESTAMP_SECS;
    in_range && (t.nanos < NANOS_PER_SECOND || (t.nanos < LEAP_NANOS_LIMIT
        && t.secs.checked_rem_euclid(60).unwrap() == 59))
}

} // verus!
