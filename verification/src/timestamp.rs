//! Points in time at one-second resolution, and their UTC calendar fields.

use vstd::prelude::*;

verus! {

/// Unix time of -9999-01-01 00:00:00 UTC, the earliest representable instant.
pub const MIN_UNIX_SECONDS: i64 = -377_705_116_800;

/// Unix time of 9999-12-31 23:59:59 UTC, the latest representable instant.
pub const MAX_UNIX_SECONDS: i64 = 253_402_300_799;

/// Whether a Unix time lies in the range that has a calendar date.
pub open spec fn representable(unix_seconds: int) -> bool {
    MIN_UNIX_SECONDS <= unix_seconds <= MAX_UNIX_SECONDS
}

/// Calendar date and time of day in UTC.
#[derive(Clone, Copy, Debug, PartialEq, Eq, Structural)]
pub struct CivilDateTime {
    pub year: i32,
    pub month: u8,
    pub day: u8,
    pub hour: u8,
    pub minute: u8,
    pub second: u8,
}

/// Year, month and day of the proleptic Gregorian calendar, in UTC, on which
/// the given Unix time falls, as the `time` crate computes them.
pub uninterp spec fn utc_date(unix_seconds: int) -> (i32, u8, u8);

/// Seconds since the most recent UTC midnight.
pub open spec fn second_of_day(unix_seconds: int) -> int {
    unix_seconds % 86_400
}

/// The UTC calendar fields of a Unix time.
pub open spec fn utc_civil(unix_seconds: int) -> CivilDateTime {
    CivilDateTime {
        year: utc_date(unix_seconds).0,
        month: utc_date(unix_seconds).1,
        day: utc_date(unix_seconds).2,
        hour: (second_of_day(unix_seconds) / 3_600) as u8,
        minute: (second_of_day(unix_seconds) % 3_600 / 60) as u8,
        second: (second_of_day(unix_seconds) % 60) as u8,
    }
}

/// Calls `time::OffsetDateTime::from_unix_timestamp` and reads the fields of
/// what it returns with `year`, `month`, `day`, `hour`, `minute` and `second`.
///
/// Trusted: the call succeeds exactly on Unix times from
/// `MIN_UNIX_SECONDS` to `MAX_UNIX_SECONDS`; the date is whatever the `time`
/// crate computes, named `utc_date`, with a month from 1 to 12 and a day
/// from 1 to 31; the time of day is the remainder of the Unix time modulo
/// one day, split into hours, minutes and seconds.
#[verifier::external_body]
fn utc_fields(unix_seconds: i64) -> (fields: Option<CivilDateTime>)
    ensures
        fields is Some <==> representable(unix_seconds as int),
        fields matches Some(c) ==> (c.year, c.month, c.day) == utc_date(unix_seconds as int),
        fields matches Some(c) ==> 1 <= c.month <= 12 && 1 <= c.day <= 31,
        fields matches Some(c) ==> c.hour == second_of_day(unix_seconds as int) / 3_600,
        fields matches Some(c) ==> c.minute == second_of_day(unix_seconds as int) % 3_600 / 60,
        fields matches Some(c) ==> c.second == second_of_day(unix_seconds as int) % 60,
{
    match time::OffsetDateTime::from_unix_timestamp(unix_seconds) {
        Ok(t) => Some(
            CivilDateTime {
                year: t.year(),
                month: u8::from(t.month()),
                day: t.day(),
                hour: t.hour(),
                minute: t.minute(),
                second: t.second(),
            },
        ),
        Err(_) => None,
    }
}

/// Calls `time::OffsetDateTime::now_utc` and reads the Unix time of what it
/// returns with `unix_timestamp`.
///
/// Trusted: every `OffsetDateTime` in UTC has a Unix time from
/// `MIN_UNIX_SECONDS` to `MAX_UNIX_SECONDS`. Nothing is said of which one the
/// clock gives.
#[verifier::external_body]
fn current_unix_seconds() -> (unix_seconds: i64)
    ensures
        representable(unix_seconds as int),
{
    time::OffsetDateTime::now_utc().unix_timestamp()
}

/// A point in time, as whole seconds since 1970-01-01 00:00:00 UTC.
///
/// Every value lies in the range that has a calendar date.
#[derive(Clone, Copy, Debug, PartialEq, Eq, Structural)]
pub struct Timestamp {
    unix_seconds: i64,
}

impl View for Timestamp {
    type V = int;

    closed spec fn view(&self) -> int {
        self.unix_seconds as int
    }
}

impl Timestamp {
    #[verifier::type_invariant]
    spec fn in_range(self) -> bool {
        representable(self.unix_seconds as int)
    }

    /// Whether the value lies in the representable range. Holds of every
    /// timestamp that executable code can hold.
    pub open spec fn wf(self) -> bool {
        representable(self@)
    }

    /// The timestamp for a Unix time, if it is representable.
    pub fn from_unix_seconds(unix_seconds: i64) -> (made: Option<Timestamp>)
        ensures
            made is Some <==> representable(unix_seconds as int),
            made matches Some(t) ==> t@ == unix_seconds && t.wf(),
    {
        if MIN_UNIX_SECONDS <= unix_seconds && unix_seconds <= MAX_UNIX_SECONDS {
            Some(Timestamp { unix_seconds })
        } else {
            None
        }
    }

    /// The current time according to the system clock.
    pub fn now() -> (t: Timestamp)
        ensures
            t.wf(),
    {
        Timestamp { unix_seconds: current_unix_seconds() }
    }

    /// Seconds since 1970-01-01 00:00:00 UTC.
    pub fn unix_seconds(&self) -> (s: i64)
        ensures
            s == self@,
            self.wf(),
    {
        proof {
            use_type_invariant(self);
        }
        self.unix_seconds
    }

    /// The UTC calendar fields of this instant.
    pub fn civil(&self) -> (c: CivilDateTime)
        ensures
            c == utc_civil(self@),
            1 <= c.month <= 12,
            1 <= c.day <= 31,
            c.hour < 24,
            c.minute < 60,
            c.second < 60,
    {
        proof {
            use_type_invariant(self);
        }
        match utc_fields(self.unix_seconds) {
            Some(c) => c,
            // A representable instant always has calendar fields.
            None => CivilDateTime { year: 1970, month: 1, day: 1, hour: 0, minute: 0, second: 0 },
        }
    }

    /// Signed number of seconds from `self` to `later`.
    pub fn seconds_until(&self, later: &Timestamp) -> (elapsed: i64)
        ensures
            elapsed == later@ - self@,
    {
        proof {
            use_type_invariant(self);
            use_type_invariant(later);
        }
        later.unix_seconds - self.unix_seconds
    }
}

} // verus!
