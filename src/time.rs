use vstd::prelude::*;

use crate::convert::{pack_present, unpack_present};
use crate::result::Error;
use crate::{S2ProtoPack, S2ProtoUnpack};

verus! {

/// The wire's timestamp: seconds since the Unix epoch and the nanoseconds past them.
#[derive(Debug, Clone, Copy, PartialEq, Eq, Structural)]
pub struct Timestamp {
    pub seconds: i64,
    pub nanos: i32,
}

/// The wire's signed duration: seconds and nanoseconds.
#[derive(Debug, Clone, Copy, PartialEq, Eq, Structural)]
pub struct Duration {
    pub seconds: i64,
    pub nanos: i32,
}

pub const NANOS_PER_SEC: u32 = 1_000_000_000;

/// The first whole second of the calendar: January 1, 262143 BCE, at midnight.
pub const MIN_TIMESTAMP_SECS: i64 = -8_334_601_228_800;

/// The last whole second of the calendar: December 31, 262142 CE, at 23:59:59.
pub const MAX_TIMESTAMP_SECS: i64 = 8_210_266_876_799;

/// Whether the calendar holds the instant `seconds` and `nanos` after the Unix epoch: the
/// second lies in its range, and the nanoseconds stay under a second but in a leap second,
/// which only the last second of a minute can hold.
pub open spec fn calendar_holds(seconds: i64, nanos: u32) -> bool {
    &&& MIN_TIMESTAMP_SECS <= seconds <= MAX_TIMESTAMP_SECS
    &&& nanos < NANOS_PER_SEC || (nanos < 2 * NANOS_PER_SEC && seconds % 60 == 59)
}

/// Relies on chrono::DateTime::from_timestamp, read back through `timestamp` and
/// `timestamp_subsec_nanos`: whether the calendar holds the instant, which the
/// documentation promises to round-trip.
#[verifier::external_body]
fn utc_from_timestamp(seconds: i64, nanos: u32) -> (r: Option<(i64, u32)>)
    ensures
        r is Some <==> calendar_holds(seconds, nanos),
        r is Some ==> r == Some((seconds, nanos)),
{
    chrono::DateTime::from_timestamp(seconds, nanos).map(
        |d| (d.timestamp(), d.timestamp_subsec_nanos()),
    )
}

/// A calendar instant in UTC, at a whole second since the Unix epoch and the
/// nanoseconds past it.
#[derive(Debug, Clone, Copy, PartialEq, Eq)]
pub struct DateTimeUtc {
    seconds: i64,
    nanos: u32,
}

impl View for DateTimeUtc {
    type V = (i64, u32);

    closed spec fn view(&self) -> (i64, u32) {
        (self.seconds, self.nanos)
    }
}

impl DateTimeUtc {
    #[verifier::type_invariant]
    closed spec fn inv(self) -> bool {
        self.nanos < NANOS_PER_SEC && calendar_holds(self.seconds, self.nanos)
    }

    /// The instant `seconds` and `nanos` after the Unix epoch, if the calendar holds it and
    /// `nanos` is under a second.
    pub fn from_timestamp(seconds: i64, nanos: u32) -> (r: Option<DateTimeUtc>)
        ensures
            r is Some <==> nanos < NANOS_PER_SEC && calendar_holds(seconds, nanos),
            r matches Some(d) ==> d@ == (seconds, nanos),
    {
        if nanos >= NANOS_PER_SEC {
            return None;
        }
        match utc_from_timestamp(seconds, nanos) {
            Some((s, n)) => Some(DateTimeUtc { seconds: s, nanos: n }),
            None => None,
        }
    }

    /// Whole seconds since the Unix epoch.
    pub fn timestamp(&self) -> (r: i64)
        ensures
            r == self@.0,
    {
        self.seconds
    }

    /// Nanoseconds past the whole second; always under a second.
    pub fn timestamp_subsec_nanos(&self) -> (r: u32)
        ensures
            r == self@.1,
            r < NANOS_PER_SEC,
    {
        proof {
            use_type_invariant(self);
        }
        self.nanos
    }
}

impl S2ProtoPack<Timestamp> for DateTimeUtc {
    open spec fn pack_spec(self, r: Result<Timestamp, Error>) -> bool {
        r == Ok::<Timestamp, Error>(Timestamp { seconds: self@.0, nanos: self@.1 as i32 })
            && self@.1 < NANOS_PER_SEC
    }

    fn pack(self) -> (r: Result<Timestamp, Error>) {
        let nanos = self.timestamp_subsec_nanos();
        Ok(Timestamp { seconds: self.timestamp(), nanos: nanos as i32 })
    }
}

impl S2ProtoUnpack<Timestamp> for DateTimeUtc {
    open spec fn unpack_spec(value: Timestamp, r: Result<DateTimeUtc, Error>) -> bool {
        let holds = 0 <= value.nanos < NANOS_PER_SEC && calendar_holds(
            value.seconds,
            value.nanos as u32,
        );
        match r {
            Ok(d) => holds && d@ == (value.seconds, value.nanos as u32),
            Err(e) => !holds && e == Error::TimestampOutOfRange {
                seconds: value.seconds,
                nanos: value.nanos,
            },
        }
    }

    fn unpack(value: Timestamp) -> (r: Result<DateTimeUtc, Error>) {
        if value.nanos < 0 || value.nanos >= NANOS_PER_SEC as i32 {
            return Err(Error::TimestampOutOfRange { seconds: value.seconds, nanos: value.nanos });
        }
        match DateTimeUtc::from_timestamp(value.seconds, value.nanos as u32) {
            Some(d) => Ok(d),
            None => Err(Error::TimestampOutOfRange { seconds: value.seconds, nanos: value.nanos }),
        }
    }
}

/// The largest duration, `i64::MAX` milliseconds: its whole seconds.
pub const MAX_DELTA_SECS: i64 = 9_223_372_036_854_775;

/// The largest duration, `i64::MAX` milliseconds: its nanoseconds past the whole seconds.
pub const MAX_DELTA_NANOS: i32 = 807_000_000;

/// The smallest duration, `-i64::MAX` milliseconds: its whole seconds, rounded down.
pub const MIN_DELTA_SECS: i64 = -9_223_372_036_854_776;

/// The smallest duration, `-i64::MAX` milliseconds: its nanoseconds past the whole seconds.
pub const MIN_DELTA_NANOS: i32 = 193_000_000;

/// Whether `secs` whole seconds (rounded down) and `nanos` past them form a domain duration:
/// at most `i64::MAX` milliseconds either way.
pub open spec fn delta_in_range(secs: int, nanos: int) -> bool {
    &&& 0 <= nanos < NANOS_PER_SEC
    &&& MIN_DELTA_SECS < secs || (secs == MIN_DELTA_SECS && nanos >= MIN_DELTA_NANOS)
    &&& secs < MAX_DELTA_SECS || (secs == MAX_DELTA_SECS && nanos <= MAX_DELTA_NANOS)
}

/// A signed span of time, at most `i64::MAX` milliseconds either way.
#[derive(Debug, Clone, Copy, PartialEq, Eq)]
pub struct TimeDelta {
    secs: i64,
    nanos: i32,
}

impl View for TimeDelta {
    /// Whole seconds, rounded down, and the nanoseconds past them.
    type V = (i64, i32);

    closed spec fn view(&self) -> (i64, i32) {
        (self.secs, self.nanos)
    }
}

impl TimeDelta {
    #[verifier::type_invariant]
    closed spec fn inv(self) -> bool {
        delta_in_range(self.secs as int, self.nanos as int)
    }

    /// The duration of `secs` seconds plus `nanos` nanoseconds, if it is in range and
    /// `nanos` is under a second.
    pub fn new(secs: i64, nanos: u32) -> (r: Option<TimeDelta>)
        ensures
            r is Some <==> delta_in_range(secs as int, nanos as int),
            r matches Some(d) ==> d@ == (secs, nanos as i32),
    {
        if secs < MIN_DELTA_SECS || secs > MAX_DELTA_SECS || nanos >= NANOS_PER_SEC
            || (secs == MAX_DELTA_SECS && nanos > MAX_DELTA_NANOS as u32)
            || (secs == MIN_DELTA_SECS && nanos < MIN_DELTA_NANOS as u32) {
            None
        } else {
            Some(TimeDelta { secs, nanos: nanos as i32 })
        }
    }

    /// Whole seconds, rounded down.
    pub fn secs(&self) -> (r: i64)
        ensures
            r == self@.0,
    {
        self.secs
    }

    /// Nanoseconds past the whole seconds; always under a second.
    pub fn nanos(&self) -> (r: i32)
        ensures
            r == self@.1,
            delta_in_range(self@.0 as int, self@.1 as int),
    {
        proof {
            use_type_invariant(self);
        }
        self.nanos
    }
}

/// The text of chrono's error for a duration out of the range of the target type.
pub const OUT_OF_RANGE_MESSAGE: &'static str = "Source duration value is out of range for the target type";

/// Relies on chrono::TimeDelta::to_std: a duration that is not negative as a standard
/// duration, and the message of the error for one that is.
#[verifier::external_body]
fn delta_to_std(secs: i64, nanos: i32) -> (r: Result<(u64, u32), String>)
    requires
        delta_in_range(secs as int, nanos as int),
    ensures
        r is Ok <==> secs >= 0,
        r matches Ok(p) ==> p == (secs as u64, nanos as u32),
        r matches Err(m) ==> m@ == OUT_OF_RANGE_MESSAGE@,
{
    let d = chrono::TimeDelta::new(secs, nanos as u32).unwrap_or_default();
    d.to_std().map(|s| (s.as_secs(), s.subsec_nanos())).map_err(|e| e.to_string())
}

/// Relies on prost_types' `TryFrom<std::time::Duration> for Duration`: a standard duration
/// under `i64::MAX` seconds as a wire duration, which normalizing leaves as it is.
#[verifier::external_body]
fn wire_duration_from_std(secs: u64, nanos: u32) -> (r: (i64, i32))
    requires
        secs <= i64::MAX,
        nanos < NANOS_PER_SEC,
    ensures
        r == (secs as i64, nanos as i32),
{
    let d = prost_types::Duration::try_from(std::time::Duration::new(secs, nanos)).unwrap_or_default();
    (d.seconds, d.nanos)
}

/// The standard duration, as whole seconds and nanoseconds, that a wire duration stands
/// for once normalized: none when it is negative; whole seconds past `i64::MAX` saturate.
pub open spec fn std_duration_of(seconds: i64, nanos: i32) -> Option<(u64, u32)> {
    let t = seconds * 1_000_000_000 + nanos;
    if t < 0 {
        None
    } else if t / 1_000_000_000 > i64::MAX {
        Some((i64::MAX as u64, 999_999_999u32))
    } else {
        Some(((t / 1_000_000_000) as u64, (t % 1_000_000_000) as u32))
    }
}

/// Relies on prost_types' `TryFrom<Duration> for std::time::Duration`: the wire duration,
/// normalized, as a standard duration, and the message of the error for a negative one.
#[verifier::external_body]
fn std_from_wire_duration(seconds: i64, nanos: i32) -> (r: Result<(u64, u32), String>)
    requires
        seconds >= i64::MIN + 3,
    ensures
        r is Err <==> std_duration_of(seconds, nanos) is None,
        r matches Ok(p) ==> std_duration_of(seconds, nanos) == Some(p) && NANOS_PER_SEC > p.1,
{
    let d = prost_types::Duration { seconds, nanos };
    std::time::Duration::try_from(d).map(|s| (s.as_secs(), s.subsec_nanos())).map_err(
        |e| e.to_string(),
    )
}

/// Relies on chrono::TimeDelta::from_std: a standard duration as a domain duration, and the
/// message of the error for one out of range.
#[verifier::external_body]
fn delta_from_std(secs: u64, nanos: u32) -> (r: Result<(i64, i32), String>)
    requires
        nanos < NANOS_PER_SEC,
    ensures
        r is Ok <==> delta_in_range(secs as int, nanos as int),
        r matches Ok(p) ==> p == (secs as i64, nanos as i32),
{
    chrono::TimeDelta::from_std(std::time::Duration::new(secs, nanos)).map(
        |d| (d.num_seconds(), d.subsec_nanos()),
    ).map_err(|e| e.to_string())
}

/// The message for a wire duration too far below zero to normalize.
pub const NEGATIVE_DURATION_MESSAGE: &'static str = "failed to convert negative duration";

impl S2ProtoPack<Duration> for TimeDelta {
    /// A duration that is not negative packs to its seconds and nanoseconds; a negative
    /// one fails.
    open spec fn pack_spec(self, r: Result<Duration, Error>) -> bool {
        match r {
            Ok(w) => self@.0 >= 0 && w == Duration { seconds: self@.0, nanos: self@.1 },
            Err(e) => self@.0 < 0 && (e matches Error::ParseDuration { message }
                && message@ == OUT_OF_RANGE_MESSAGE@),
        }
    }

    fn pack(self) -> (r: Result<Duration, Error>) {
        let nanos = self.nanos();
        match delta_to_std(self.secs(), nanos) {
            Ok((s, n)) => {
                let (seconds, nanos) = wire_duration_from_std(s, n);
                Ok(Duration { seconds, nanos })
            },
            Err(message) => Err(Error::ParseDuration { message }),
        }
    }
}

/// The domain duration, as whole seconds and nanoseconds, that a wire duration stands for.
pub open spec fn delta_of_wire(value: Duration) -> Option<(i64, i32)> {
    match std_duration_of(value.seconds, value.nanos) {
        Some((s, n)) => if delta_in_range(s as int, n as int) {
            Some((s as i64, n as i32))
        } else {
            None
        },
        None => None,
    }
}

impl S2ProtoUnpack<Duration> for TimeDelta {
    /// A wire duration unpacks when, normalized, it is not negative and in range. One already
    /// normal unpacks to its own seconds and nanoseconds when in range; a negative one fails.
    open spec fn unpack_spec(value: Duration, r: Result<TimeDelta, Error>) -> bool {
        &&& match r {
            Ok(d) => delta_of_wire(value) == Some(d@),
            Err(e) => delta_of_wire(value) is None && e is ParseDuration,
        }
        &&& value.seconds >= 0 && 0 <= value.nanos < NANOS_PER_SEC ==> {
            &&& r is Ok <==> delta_in_range(value.seconds as int, value.nanos as int)
            &&& r matches Ok(d) ==> d@ == (value.seconds, value.nanos)
        }
        &&& value.seconds < 0 && -NANOS_PER_SEC < value.nanos <= 0 ==> r is Err
    }

    fn unpack(value: Duration) -> (r: Result<TimeDelta, Error>) {
        proof {
            let t = value.seconds * 1_000_000_000 + value.nanos;
            if value.seconds >= 0 && 0 <= value.nanos < NANOS_PER_SEC {
                vstd::arithmetic::div_mod::lemma_fundamental_div_mod_converse(t, 1_000_000_000, value.seconds as int, value.nanos as int);
            }
        }
        if value.seconds < i64::MIN + 3 {
            return Err(
                Error::ParseDuration { message: NEGATIVE_DURATION_MESSAGE.to_string() },
            );
        }
        match std_from_wire_duration(value.seconds, value.nanos) {
            Ok((s, n)) => match delta_from_std(s, n) {
                Ok((secs, nanos)) => Ok(TimeDelta { secs, nanos }),
                Err(message) => Err(Error::ParseDuration { message }),
            },
            Err(message) => Err(Error::ParseDuration { message }),
        }
    }
}

/// A `DateTimeUtc` fills an optional wire slot.
impl S2ProtoPack<Option<Timestamp>> for DateTimeUtc {
    open spec fn pack_spec(self, r: Result<Option<Timestamp>, Error>) -> bool {
        crate::convert::pack_present_spec::<Timestamp, DateTimeUtc>(self, r)
    }

    fn pack(self) -> (r: Result<Option<Timestamp>, Error>) {
        pack_present::<Timestamp, DateTimeUtc>(self)
    }
}

/// A `DateTimeUtc` is required from an optional wire slot.
impl S2ProtoUnpack<Option<Timestamp>> for DateTimeUtc {
    open spec fn unpack_spec(value: Option<Timestamp>, r: Result<DateTimeUtc, Error>) -> bool {
        crate::convert::unpack_present_spec::<Timestamp, DateTimeUtc>(value, r)
    }

    fn unpack(value: Option<Timestamp>) -> (r: Result<DateTimeUtc, Error>) {
        unpack_present::<Timestamp, DateTimeUtc>(value)
    }
}

/// A `TimeDelta` fills an optional wire slot.
impl S2ProtoPack<Option<Duration>> for TimeDelta {
    open spec fn pack_spec(self, r: Result<Option<Duration>, Error>) -> bool {
        crate::convert::pack_present_spec::<Duration, TimeDelta>(self, r)
    }

    fn pack(self) -> (r: Result<Option<Duration>, Error>) {
        pack_present::<Duration, TimeDelta>(self)
    }
}

/// A `TimeDelta` is required from an optional wire slot.
impl S2ProtoUnpack<Option<Duration>> for TimeDelta {
    open spec fn unpack_spec(value: Option<Duration>, r: Result<TimeDelta, Error>) -> bool {
        crate::convert::unpack_present_spec::<Duration, TimeDelta>(value, r)
    }

    fn unpack(value: Option<Duration>) -> (r: Result<TimeDelta, Error>) {
        unpack_present::<Duration, TimeDelta>(value)
    }
}

/// A timestamp that unpacks to a calendar instant packs back to the same seconds and
/// nanoseconds.
pub proof fn lemma_timestamp_round_trip(ts: Timestamp)
    ensures
        forall|d: DateTimeUtc, r: Result<Timestamp, Error>|
            <DateTimeUtc as S2ProtoUnpack<Timestamp>>::unpack_spec(ts, Ok(d))
                && #[trigger] <DateTimeUtc as S2ProtoPack<Timestamp>>::pack_spec(d, r) ==> r == Ok::<Timestamp, Error>(ts),
{
}

} // verus!
