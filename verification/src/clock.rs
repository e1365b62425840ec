//! The local wall clock, read through chrono.

use vstd::prelude::*;
use chrono::{Datelike, Timelike};

verus! {

/// A reading of the local date and time.
pub struct LocalReading {
    pub year: i32,
    /// 1 to 12.
    pub month: u32,
    /// 1 to 31.
    pub day: u32,
    /// Days since 0001-01-01, that day being 1.
    pub days_from_ce: i32,
    /// Whole non-leap seconds since midnight.
    pub secs_of_day: u32,
    /// Nanoseconds past the whole second; 1e9 and more inside a leap second.
    pub nanos: u32,
}

/// The local date and time now: `std::time::SystemTime::now()` converted by
/// chrono's `From<SystemTime>` for `DateTime<Utc>` (which handles instants
/// before 1970 as well as after), moved to `chrono::Local` and taken as a naive
/// local date-time. chrono documents month 1 to 12, day 1 to 31, seconds since
/// midnight below 86400 and nanoseconds below 2e9, and years within -262144 to
/// 262143 (a day count of at most 95745764, that of 262143-12-31). Which moment
/// is read is not stated: it is the machine's clock and time zone. chrono
/// unwraps only for instants outside its own range (near year 262143) and where
/// the system's zone data cannot be read as a time zone.
#[verifier::external_body]
pub fn local_now() -> (r: LocalReading)
    ensures
        1 <= r.month <= 12,
        1 <= r.day <= 31,
        r.secs_of_day < 86400,
        r.nanos < 2_000_000_000,
        -262144 <= r.year <= 262143,
        r.days_from_ce <= 95745764,
{
    let utc = chrono::DateTime::<chrono::Utc>::from(std::time::SystemTime::now());
    let n = utc.with_timezone(&chrono::Local).naive_local();
    LocalReading {
        year: n.year(),
        month: n.month(),
        day: n.day(),
        days_from_ce: n.date().num_days_from_ce(),
        secs_of_day: n.time().num_seconds_from_midnight(),
        nanos: n.time().nanosecond(),
    }
}

} // verus!
