//! The calendar model of the static schedule, and the two questions asked
//! of it: does a trip run on a given date, and is it running right now.
//!
//! A civil date is carried as its day number in the proleptic Gregorian
//! calendar, day 1 being the first of January of year one, a Monday; that
//! numbering is what the schedule loader derives from the feed's dates.
use vstd::prelude::*;

verus! {

use crate::strings::str_eq;
use crate::train::{ScheduledTrip, TripModel};

/// Seconds in one day; scheduled times at or past this value belong to
/// the next calendar day of the same service day.
pub const SECONDS_PER_DAY: u32 = 86400;

/// One service's weekly pattern with its validity window (both dates
/// inclusive, as day numbers).
#[derive(Debug, Clone, Copy)]
pub struct Calendar {
    pub monday: bool,
    pub tuesday: bool,
    pub wednesday: bool,
    pub thursday: bool,
    pub friday: bool,
    pub saturday: bool,
    pub sunday: bool,
    pub start_date: u32,
    pub end_date: u32,
}

/// Whether a calendar exception adds or removes service on its date.
#[derive(Debug, Clone, Copy, PartialEq, Eq, Structural)]
pub enum ExceptionKind {
    Added,
    Deleted,
}

/// One calendar exception: on `date`, the service is added or deleted,
/// overriding the weekly pattern.
#[derive(Debug, Clone, Copy)]
pub struct CalendarException {
    pub date: u32,
    pub exception_type: ExceptionKind,
}

/// The weekly calendar of one service.
#[derive(Debug, Clone)]
pub struct ServiceCalendar {
    pub service_id: String,
    pub calendar: Calendar,
}

/// Abstract value of a `ServiceCalendar`.
#[verifier::ext_equal]
pub struct ServiceCalendarModel {
    pub service_id: Seq<char>,
    pub calendar: Calendar,
}

impl View for ServiceCalendar {
    type V = ServiceCalendarModel;

    open spec fn view(&self) -> ServiceCalendarModel {
        ServiceCalendarModel { service_id: self.service_id@, calendar: self.calendar }
    }
}

impl DeepView for ServiceCalendar {
    type V = ServiceCalendarModel;

    open spec fn deep_view(&self) -> ServiceCalendarModel {
        self.view()
    }
}

/// The calendar exceptions of one service, in feed order.
#[derive(Debug, Clone)]
pub struct ServiceExceptions {
    pub service_id: String,
    pub days: Vec<CalendarException>,
}

/// Abstract value of a `ServiceExceptions`.
#[verifier::ext_equal]
pub struct ServiceExceptionsModel {
    pub service_id: Seq<char>,
    pub days: Seq<CalendarException>,
}

impl View for ServiceExceptions {
    type V = ServiceExceptionsModel;

    open spec fn view(&self) -> ServiceExceptionsModel {
        ServiceExceptionsModel { service_id: self.service_id@, days: self.days@ }
    }
}

impl DeepView for ServiceExceptions {
    type V = ServiceExceptionsModel;

    open spec fn deep_view(&self) -> ServiceExceptionsModel {
        self.view()
    }
}

/// The calendar side of the static schedule: each service's weekly
/// pattern and its exceptions, keyed by service id. Service ids are
/// unique in a well-formed feed; lookup takes the first match.
#[derive(Debug, Clone)]
pub struct Schedule {
    pub calendars: Vec<ServiceCalendar>,
    pub calendar_dates: Vec<ServiceExceptions>,
}

/// Abstract value of a `Schedule`.
#[verifier::ext_equal]
pub struct ScheduleModel {
    pub calendars: Seq<ServiceCalendarModel>,
    pub calendar_dates: Seq<ServiceExceptionsModel>,
}

impl View for Schedule {
    type V = ScheduleModel;

    open spec fn view(&self) -> ScheduleModel {
        ScheduleModel {
            calendars: self.calendars.deep_view(),
            calendar_dates: self.calendar_dates.deep_view(),
        }
    }
}

/// The weekday of a day number, 0 being Monday and 6 Sunday: day 1,
/// the first of January of year one, is a Monday.
pub open spec fn weekday_index(date: u32) -> int {
    (date + 6) % 7
}

/// Whether `cal`'s weekly pattern includes `date`'s weekday.
pub open spec fn spec_valid_weekday(cal: Calendar, date: u32) -> bool {
    let w = weekday_index(date);
    if w == 0 {
        cal.monday
    } else if w == 1 {
        cal.tuesday
    } else if w == 2 {
        cal.wednesday
    } else if w == 3 {
        cal.thursday
    } else if w == 4 {
        cal.friday
    } else if w == 5 {
        cal.saturday
    } else {
        cal.sunday
    }
}

/// Executable form of `spec_valid_weekday`.
pub fn valid_weekday(cal: &Calendar, date: u32) -> (r: bool)
    ensures
        r == spec_valid_weekday(*cal, date),
{
    let w = (date % 7 + 6) % 7;
    proof {
        assert((date % 7 + 6) % 7 == (date + 6) % 7) by (nonlinear_arith);
    }
    if w == 0 {
        cal.monday
    } else if w == 1 {
        cal.tuesday
    } else if w == 2 {
        cal.wednesday
    } else if w == 3 {
        cal.thursday
    } else if w == 4 {
        cal.friday
    } else if w == 5 {
        cal.saturday
    } else {
        cal.sunday
    }
}

/// The calendar of the first entry for `service_id`, if any.
pub open spec fn spec_find_calendar(
    calendars: Seq<ServiceCalendarModel>,
    service_id: Seq<char>,
) -> Option<Calendar>
    decreases calendars.len(),
{
    if calendars.len() == 0 {
        None
    } else if calendars[0].service_id == service_id {
        Some(calendars[0].calendar)
    } else {
        spec_find_calendar(calendars.drop_first(), service_id)
    }
}

/// The exceptions of the first entry for `service_id`; none when the
/// service has no entry.
pub open spec fn spec_find_exceptions(
    calendar_dates: Seq<ServiceExceptionsModel>,
    service_id: Seq<char>,
) -> Seq<CalendarException>
    decreases calendar_dates.len(),
{
    if calendar_dates.len() == 0 {
        Seq::empty()
    } else if calendar_dates[0].service_id == service_id {
        calendar_dates[0].days
    } else {
        spec_find_exceptions(calendar_dates.drop_first(), service_id)
    }
}

/// Applies every exception dated `date` to `base`, in order: an addition
/// turns the answer on, a deletion turns it off; the last one wins.
pub open spec fn apply_exceptions(base: bool, days: Seq<CalendarException>, date: u32) -> bool
    decreases days.len(),
{
    if days.len() == 0 {
        base
    } else {
        let head = days[0];
        let next = if head.date == date {
            head.exception_type is Added
        } else {
            base
        };
        apply_exceptions(next, days.drop_first(), date)
    }
}

/// Whether the trip's service runs on `date`: the weekly pattern within
/// its validity window, overridden by the exceptions dated `date`.
pub open spec fn spec_rides_at_date(schedule: ScheduleModel, trip: TripModel, date: u32) -> bool {
    let base = match spec_find_calendar(schedule.calendars, trip.service_id) {
        Some(cal) => cal.start_date <= date && date <= cal.end_date && spec_valid_weekday(
            cal,
            date,
        ),
        None => false,
    };
    apply_exceptions(base, spec_find_exceptions(schedule.calendar_dates, trip.service_id), date)
}

impl Schedule {
    /// The calendar of `service_id`, if the schedule has one.
    fn find_calendar(&self, service_id: &str) -> (r: Option<&ServiceCalendar>)
        ensures
            match spec_find_calendar(self@.calendars, service_id@) {
                Some(cal) => r is Some && r.unwrap().calendar == cal,
                None => r is None,
            },
    {
        let n = self.calendars.len();
        let mut i: usize = 0;
        proof {
            assert(self@.calendars.subrange(0, n as int) =~= self@.calendars);
        }
        while i < n
            invariant
                i <= n,
                n == self.calendars.len(),
                spec_find_calendar(self@.calendars, service_id@) == spec_find_calendar(
                    self@.calendars.subrange(i as int, n as int),
                    service_id@,
                ),
            decreases n - i,
        {
            proof {
                assert(self@.calendars.subrange(i as int, n as int).drop_first()
                    =~= self@.calendars.subrange(i as int + 1, n as int));
            }
            if str_eq(self.calendars[i].service_id.as_str(), service_id) {
                return Some(&self.calendars[i]);
            }
            i += 1;
        }
        None
    }

    /// The exceptions of `service_id`; empty when there is no entry.
    fn find_exceptions(&self, service_id: &str) -> (r: Option<&ServiceExceptions>)
        ensures
            match r {
                Some(e) => e.days@ == spec_find_exceptions(self@.calendar_dates, service_id@),
                None => spec_find_exceptions(self@.calendar_dates, service_id@)
                    == Seq::<CalendarException>::empty(),
            },
    {
        let n = self.calendar_dates.len();
        let mut i: usize = 0;
        proof {
            assert(self@.calendar_dates.subrange(0, n as int) =~= self@.calendar_dates);
        }
        while i < n
            invariant
                i <= n,
                n == self.calendar_dates.len(),
                spec_find_exceptions(self@.calendar_dates, service_id@) == spec_find_exceptions(
                    self@.calendar_dates.subrange(i as int, n as int),
                    service_id@,
                ),
            decreases n - i,
        {
            proof {
                assert(self@.calendar_dates.subrange(i as int, n as int).drop_first()
                    =~= self@.calendar_dates.subrange(i as int + 1, n as int));
            }
            if str_eq(self.calendar_dates[i].service_id.as_str(), service_id) {
                return Some(&self.calendar_dates[i]);
            }
            i += 1;
        }
        None
    }
}

/// Whether `trip` runs on `date` under `schedule`'s calendar: the weekly
/// pattern inside its validity window, overridden by every exception
/// dated `date`, the last one winning.
pub fn rides_at_date(schedule: &Schedule, trip: &ScheduledTrip, date: u32) -> (r: bool)
    ensures
        r == spec_rides_at_date(schedule@, trip.deep_view(), date),
{
    let mut ret = false;

    if let Some(entry) = schedule.find_calendar(trip.service_id.as_str()) {
        if entry.calendar.start_date <= date && entry.calendar.end_date >= date && valid_weekday(
            &entry.calendar,
            date,
        ) {
            ret = true;
        }
    }

    let ghost base = ret;
    let ghost all_days = spec_find_exceptions(schedule@.calendar_dates, trip.service_id@);

    match schedule.find_exceptions(trip.service_id.as_str()) {
        None => {
            proof {
                assert(apply_exceptions(base, all_days, date) == base);
            }
        },
        Some(entry) => {
            let n = entry.days.len();
            let mut i: usize = 0;
            proof {
                assert(all_days.subrange(0, n as int) =~= all_days);
            }
            while i < n
                invariant
                    i <= n,
                    n == entry.days.len(),
                    entry.days@ == all_days,
                    apply_exceptions(base, all_days, date) == apply_exceptions(
                        ret,
                        all_days.subrange(i as int, n as int),
                        date,
                    ),
                decreases n - i,
            {
                proof {
                    assert(all_days.subrange(i as int, n as int).drop_first() =~= all_days.subrange(
                        i as int + 1,
                        n as int,
                    ));
                }
                let extra_day = &entry.days[i];
                if extra_day.date == date {
                    if matches!(extra_day.exception_type, ExceptionKind::Added) {
                        ret = true;
                    } else {
                        ret = false;
                    }
                }
                i += 1;
            }
            proof {
                assert(all_days.subrange(n as int, n as int)
                    =~= Seq::<CalendarException>::empty());
            }
        },
    }

    ret
}

/// `rides_at_date` answers from its arguments alone: equal schedules,
/// trips and dates get the same answer.
pub proof fn lemma_rides_at_date_deterministic(
    schedule1: ScheduleModel,
    schedule2: ScheduleModel,
    trip1: TripModel,
    trip2: TripModel,
    date1: u32,
    date2: u32,
)
    requires
        schedule1 == schedule2,
        trip1 == trip2,
        date1 == date2,
    ensures
        spec_rides_at_date(schedule1, trip1, date1) == spec_rides_at_date(
            schedule2,
            trip2,
            date2,
        ),
{
}

/// Whether `trip` is running at the moment `(today, now_seconds)`,
/// `now_seconds` being seconds since local midnight. A trip without a
/// first departure or a last arrival never rides. A trip that ran
/// yesterday and crosses midnight is still running in the spilled hours;
/// when yesterday's trip also started before midnight, any moment at or
/// after its start, or before its spilled end, counts as running.
pub open spec fn spec_rides_now(
    schedule: ScheduleModel,
    trip: TripModel,
    today: u32,
    now_seconds: u32,
) -> bool {
    let start = trip.stop_times[0].departure_time;
    let end = trip.stop_times[trip.stop_times.len() - 1].arrival_time;
    if start is None || end is None {
        false
    } else {
        let s = start.unwrap();
        let e = end.unwrap();
        if spec_rides_at_date(schedule, trip, today) && s <= now_seconds && e >= now_seconds {
            true
        } else if spec_rides_at_date(schedule, trip, (today - 1) as u32) && e >= SECONDS_PER_DAY {
            if s < SECONDS_PER_DAY {
                s <= now_seconds || e - SECONDS_PER_DAY >= now_seconds
            } else {
                s - SECONDS_PER_DAY <= now_seconds && e - SECONDS_PER_DAY >= now_seconds
            }
        } else {
            false
        }
    }
}

/// Executable form of `spec_rides_now`. `today` must have a predecessor
/// in the day numbering.
pub fn rides_now(schedule: &Schedule, trip: &ScheduledTrip, today: u32, now_seconds: u32) -> (r:
    bool)
    requires
        trip.stop_times@.len() > 0,
        today >= 1,
    ensures
        r == spec_rides_now(schedule@, trip.deep_view(), today, now_seconds),
{
    let trip_starting_timestamp = trip.stop_times[0].departure_time;
    let trip_ending_timestamp = trip.stop_times[trip.stop_times.len() - 1].arrival_time;

    let (start, end) = match (trip_starting_timestamp, trip_ending_timestamp) {
        (Some(s), Some(e)) => (s, e),
        _ => {
            return false;
        },
    };

    if rides_at_date(schedule, trip, today) && start <= now_seconds && end >= now_seconds {
        return true;
    }

    if rides_at_date(schedule, trip, today - 1) && end >= SECONDS_PER_DAY {
        if start < SECONDS_PER_DAY {
            return start <= now_seconds || end - SECONDS_PER_DAY >= now_seconds;
        } else {
            return start - SECONDS_PER_DAY <= now_seconds && end - SECONDS_PER_DAY >= now_seconds;
        }
    }

    false
}

} // verus!
