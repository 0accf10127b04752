//! The one place the library asks for the time: the current moment in
//! the network's timezone, as a civil day number and seconds since
//! midnight.
use vstd::prelude::*;

verus! {

use chrono::{Datelike, TimeZone, Timelike, Utc};
use crate::calendar::{rides_now, spec_rides_now, Schedule};
use crate::train::ScheduledTrip;

/// A moment of local time: the day number (day 1 being the first of
/// January of year one, negative for dates before that) and the seconds
/// since the day's midnight.
#[derive(Debug, Clone, Copy)]
pub struct LocalMoment {
    pub days: i32,
    pub seconds: u32,
}

/// Relies on chrono's `Utc::now`, chrono-tz's `Europe::Brussels`
/// conversion, `Datelike::num_days_from_ce` (day 1 is the first of
/// January of year one) and `Timelike::num_seconds_from_midnight`,
/// whose result chrono documents to lie in 0..86400.
#[verifier::external_body]
pub fn local_moment_now() -> (m: LocalMoment)
    ensures
        m.seconds < 86400,
{
    let local_datetime = chrono_tz::Europe::Brussels.from_utc_datetime(&Utc::now().naive_utc());
    LocalMoment {
        days: local_datetime.date_naive().num_days_from_ce(),
        seconds: local_datetime.time().num_seconds_from_midnight(),
    }
}

/// Whether `trip` is running at this very moment, together with the
/// moment the clock returned. The answer is pinned to that moment: it
/// is `rides_now` at the clock's day and second, and `false` for the
/// out-of-range days before the calendar's numbering starts.
pub fn rides_currently(schedule: &Schedule, trip: &ScheduledTrip) -> (r: (bool, LocalMoment))
    requires
        trip.stop_times@.len() > 0,
    ensures
        r.1.seconds < 86400,
        r.0 == (r.1.days >= 1 && spec_rides_now(
            schedule@,
            trip.deep_view(),
            r.1.days as u32,
            r.1.seconds,
        )),
{
    let m = local_moment_now();
    if m.days >= 1 {
        let today = m.days as u32;
        (rides_now(schedule, trip, today, m.seconds), m)
    } else {
        (false, m)
    }
}

} // verus!
