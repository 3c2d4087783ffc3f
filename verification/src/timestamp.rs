//! Points in time as whole seconds since the Unix epoch.
use chrono::TimeZone;
use vstd::prelude::*;

verus! {

// ----------------------------------------------------------------------
// Timestamps
// ----------------------------------------------------------------------

/// The first second `chrono` turns into a UTC date and time:
/// -262143-01-01T00:00:00 UTC (`NaiveDate::MIN`).
pub const MIN_UTC_SECONDS: i64 = -8_334_601_228_800;

/// The last second `chrono` turns into a UTC date and time:
/// +262142-12-31T23:59:59 UTC.
pub const MAX_UTC_SECONDS: i64 = 8_210_266_876_799;

/// Whether `chrono` represents this many seconds since the epoch as a UTC
/// date and time: the seconds from `MIN_UTC_SECONDS` to `MAX_UTC_SECONDS`.
pub open spec fn utc_accepts(secs: i64) -> bool {
    MIN_UTC_SECONDS <= secs <= MAX_UTC_SECONDS
}

/// `chrono::Utc.timestamp_opt(secs, 0)`, single or not: claims it gives a
/// single value exactly for the seconds inside chrono's date range.
#[verifier::external_body]
fn utc_representable(secs: i64) -> (r: bool)
    ensures
        r == utc_accepts(secs),
{
    match chrono::Utc.timestamp_opt(secs, 0) {
        chrono::LocalResult::Single(_) => true,
        chrono::LocalResult::Ambiguous(_, _) => false,
        chrono::LocalResult::None => false,
    }
}

/// `chrono::Utc::now().timestamp()`: the clock; nothing is claimed of it.
#[verifier::external_body]
fn clock_seconds() -> (r: i64) {
    chrono::Utc::now().timestamp()
}

/// Why a number of seconds is not a timestamp.
#[derive(Debug, Clone, Copy, PartialEq, Eq, Structural)]
pub enum TimestampError {
    /// Outside the range of dates `chrono` represents.
    OutOfRange(i64),
}

/// A point in time, whole seconds since the Unix epoch (UTC).
#[derive(Clone, Copy, Debug, PartialEq, Eq, PartialOrd, Ord, Hash, Structural)]
pub struct Timestamp {
    secs: i64,
}

impl Timestamp {
    /// Seconds since the epoch.
    pub closed spec fn seconds(self) -> i64 {
        self.secs
    }

    /// The moment `secs` seconds after the epoch, if `chrono` represents it.
    pub fn from_unix_seconds(secs: i64) -> (r: Result<Self, TimestampError>)
        ensures
            utc_accepts(secs) ==> (r matches Ok(t) && t.seconds() == secs),
            !utc_accepts(secs) ==> r == Err::<Self, TimestampError>(TimestampError::OutOfRange(secs)),
    {
        if utc_representable(secs) {
            Ok(Timestamp { secs })
        } else {
            Err(TimestampError::OutOfRange(secs))
        }
    }

    /// The moment a clock reading of `secs` seconds names: that moment if
    /// `chrono` represents it, else the epoch.
    pub fn from_clock_reading(secs: i64) -> (r: Self)
        ensures
            utc_accepts(secs) ==> r.seconds() == secs,
            !utc_accepts(secs) ==> r.seconds() == 0,
    {
        match Self::from_unix_seconds(secs) {
            Ok(t) => t,
            Err(_) => Timestamp { secs: 0 },
        }
    }

    /// The current time (the epoch if the clock reads out of range).
    pub fn now() -> (r: Self)
        ensures
            utc_accepts(r.seconds()) || r.seconds() == 0,
    {
        Self::from_clock_reading(clock_seconds())
    }

    /// Seconds since the epoch.
    pub fn unix_seconds(self) -> (r: i64)
        ensures
            r == self.seconds(),
    {
        self.secs
    }
}

} // verus!
