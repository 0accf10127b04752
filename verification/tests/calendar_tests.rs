use delaymap::calendar::{
    rides_at_date, rides_now, Calendar, CalendarException, ExceptionKind, Schedule,
    ServiceCalendar, ServiceExceptions,
};
use delaymap::clock::rides_currently;
use delaymap::delay::Delay;
use delaymap::delay_index::{DelayIndex, FeedStopUpdate, FeedTripUpdate, StopDelay, TripDelays};
use delaymap::service::active_trains;
use delaymap::stop::ScheduledStop;
use delaymap::stop_time::ScheduledStopTime;
use delaymap::train::ScheduledTrip;

// Day number of 2022-06-19, a Sunday: 719163 (1970-01-01) + 19162.
const SUNDAY: u32 = 738325;

fn weekdays_only() -> Calendar {
    Calendar {
        monday: true,
        tuesday: true,
        wednesday: true,
        thursday: true,
        friday: true,
        saturday: false,
        sunday: false,
        start_date: SUNDAY - 30,
        end_date: SUNDAY + 30,
    }
}

fn stoptime(id: &str, arrival: Option<u32>, departure: Option<u32>) -> ScheduledStopTime {
    ScheduledStopTime {
        stop: ScheduledStop { id: id.to_string(), name: id.to_string(), lat: Some(0), lon: Some(0) },
        arrival_time: arrival,
        departure_time: departure,
    }
}

fn trip(service_id: &str, start: Option<u32>, end: Option<u32>) -> ScheduledTrip {
    ScheduledTrip {
        id: "t1".to_string(),
        headsign: None,
        service_id: service_id.to_string(),
        stop_times: vec![stoptime("a", None, start), stoptime("b", end, None)],
    }
}

fn schedule(cal: Calendar, days: Vec<CalendarException>) -> Schedule {
    Schedule {
        calendars: vec![ServiceCalendar { service_id: "svc".to_string(), calendar: cal }],
        calendar_dates: vec![ServiceExceptions { service_id: "svc".to_string(), days }],
    }
}

#[test]
fn test_rides_at_date_weekday_pattern() {
    let s = schedule(weekdays_only(), vec![]);
    let t = trip("svc", Some(100), Some(200));
    // Sunday is off, Monday is on.
    assert!(!rides_at_date(&s, &t, SUNDAY));
    assert!(rides_at_date(&s, &t, SUNDAY + 1));
}

#[test]
fn test_rides_at_date_window() {
    let s = schedule(weekdays_only(), vec![]);
    let t = trip("svc", Some(100), Some(200));
    // A Monday before the validity window does not ride.
    assert!(!rides_at_date(&s, &t, SUNDAY - 34));
    // A Monday after it does not either.
    assert!(!rides_at_date(&s, &t, SUNDAY + 36));
}

#[test]
fn test_rides_at_date_exception_added() {
    let s = schedule(
        weekdays_only(),
        vec![CalendarException { date: SUNDAY, exception_type: ExceptionKind::Added }],
    );
    let t = trip("svc", Some(100), Some(200));
    assert!(rides_at_date(&s, &t, SUNDAY));
}

#[test]
fn test_rides_at_date_exception_deleted() {
    let s = schedule(
        weekdays_only(),
        vec![CalendarException { date: SUNDAY + 1, exception_type: ExceptionKind::Deleted }],
    );
    let t = trip("svc", Some(100), Some(200));
    assert!(!rides_at_date(&s, &t, SUNDAY + 1));
}

#[test]
fn test_rides_at_date_last_exception_wins() {
    let s = schedule(
        weekdays_only(),
        vec![
            CalendarException { date: SUNDAY, exception_type: ExceptionKind::Added },
            CalendarException { date: SUNDAY, exception_type: ExceptionKind::Deleted },
        ],
    );
    let t = trip("svc", Some(100), Some(200));
    assert!(!rides_at_date(&s, &t, SUNDAY));
}

#[test]
fn test_rides_at_date_unknown_service() {
    let s = schedule(weekdays_only(), vec![]);
    let t = trip("other", Some(100), Some(200));
    assert!(!rides_at_date(&s, &t, SUNDAY + 1));
}

#[test]
fn test_rides_now_same_day() {
    let s = schedule(weekdays_only(), vec![]);
    let t = trip("svc", Some(43000), Some(44000));
    let monday = SUNDAY + 1;
    assert!(rides_now(&s, &t, monday, 43200));
    assert!(!rides_now(&s, &t, monday, 42999));
    assert!(!rides_now(&s, &t, monday, 44001));
}

#[test]
fn test_rides_now_missing_times() {
    let s = schedule(weekdays_only(), vec![]);
    assert!(!rides_now(&s, &trip("svc", None, Some(44000)), SUNDAY + 1, 43200));
    assert!(!rides_now(&s, &trip("svc", Some(43000), None), SUNDAY + 1, 43200));
}

#[test]
fn test_rides_now_overflow_late_start() {
    // Started yesterday after midnight's worth of seconds: active only
    // in the spilled window.
    let s = schedule(weekdays_only(), vec![]);
    let t = trip("svc", Some(87000), Some(90000));
    // Saturday itself is off; yesterday (Friday) rides, and the spilled
    // window is 600..=3600.
    let saturday = SUNDAY + 6;
    assert!(rides_now(&s, &t, saturday, 1800));
    assert!(!rides_now(&s, &t, saturday, 300));
    assert!(!rides_now(&s, &t, saturday, 4000));
}

#[test]
fn test_rides_now_overflow_early_start() {
    // Started yesterday before midnight and ends after it: any moment
    // at or after the start, or before the spilled end, counts.
    let s = schedule(weekdays_only(), vec![]);
    let t = trip("svc", Some(21600), Some(90000));
    // Saturday itself is off, so only yesterday's spilled trip counts.
    let saturday = SUNDAY + 6;
    assert!(rides_now(&s, &t, saturday, 1800));
    // Mid-morning, long after the spilled end: the disjunction keeps
    // any moment at or past the start time active.
    assert!(rides_now(&s, &t, saturday, 25000));
    assert!(!rides_now(&s, &t, saturday, 20000));
}

#[test]
fn test_rides_currently_no_calendar() {
    let s = Schedule { calendars: vec![], calendar_dates: vec![] };
    let t = trip("svc", Some(0), Some(86399));
    let (riding, moment) = rides_currently(&s, &t);
    assert!(!riding);
    assert!(moment.seconds < 86400);
}

#[test]
fn test_delay_index_last_patch_wins() {
    let index = DelayIndex {
        trips: vec![
            TripDelays {
                trip_id: "t1".to_string(),
                stop_delays: vec![
                    StopDelay {
                        stop_id: "s1".to_string(),
                        delay: Delay { arrival_delay: Some(1), departure_delay: Some(1) },
                    },
                    StopDelay {
                        stop_id: "s1".to_string(),
                        delay: Delay { arrival_delay: Some(7), departure_delay: None },
                    },
                ],
            },
            TripDelays { trip_id: "t2".to_string(), stop_delays: vec![] },
        ],
    };
    let d = index.delay_for("t1", "s1").unwrap();
    assert_eq!(d.arrival_delay, Some(7));
    assert_eq!(d.departure_delay, None);
    assert!(index.delay_for("t1", "s2").is_none());
    assert!(index.delay_for("t2", "s1").is_none());
    assert!(index.delay_for("t3", "s1").is_none());
}

#[test]
fn test_delay_index_last_trip_entry_wins() {
    let index = DelayIndex {
        trips: vec![
            TripDelays {
                trip_id: "t1".to_string(),
                stop_delays: vec![StopDelay {
                    stop_id: "s1".to_string(),
                    delay: Delay { arrival_delay: Some(1), departure_delay: Some(2) },
                }],
            },
            TripDelays { trip_id: "t1".to_string(), stop_delays: vec![] },
        ],
    };
    // The later entry for the trip replaces the earlier one wholesale.
    assert!(index.delay_for("t1", "s1").is_none());
}

#[test]
fn test_delay_index_from_feed() {
    let updates = vec![FeedTripUpdate {
        trip_id: "t1".to_string(),
        stop_updates: vec![
            FeedStopUpdate { stop_id: "s1".to_string(), arrival: Some(30), departure: None },
            FeedStopUpdate { stop_id: "s2".to_string(), arrival: None, departure: Some(-5) },
        ],
    }];
    let index = DelayIndex::from_feed(updates);
    let d1 = index.delay_for("t1", "s1").unwrap();
    assert_eq!(d1.arrival_delay, Some(30));
    assert_eq!(d1.departure_delay, None);
    let d2 = index.delay_for("t1", "s2").unwrap();
    assert_eq!(d2.arrival_delay, None);
    assert_eq!(d2.departure_delay, Some(-5));
}

#[test]
fn test_active_trains_filters_and_projects() {
    let s = schedule(weekdays_only(), vec![]);
    let monday = SUNDAY + 1;
    let running = ScheduledTrip {
        id: "running".to_string(),
        headsign: Some("Running".to_string()),
        service_id: "svc".to_string(),
        stop_times: vec![stoptime("a", None, Some(43000)), stoptime("b", Some(44000), None)],
    };
    let finished = ScheduledTrip {
        id: "finished".to_string(),
        headsign: Some("Finished".to_string()),
        service_id: "svc".to_string(),
        stop_times: vec![stoptime("a", None, Some(1000)), stoptime("b", Some(2000), None)],
    };
    let trips = vec![finished.clone(), running.clone(), finished];
    let result = active_trains(&s, &trips, &None, monday, 43200);
    assert_eq!(result.len(), 1);
    assert_eq!(result[0].id, "running");
    assert_eq!(result[0].name, "Running");
    assert_eq!(result[0].stops.len(), 2);
    assert_eq!(result[0].is_stopped, false);
    assert_eq!(result[0].stop_index, 1);
}

#[test]
fn test_rides_at_date_repeatable() {
    let s = schedule(weekdays_only(), vec![]);
    let t = trip("svc", Some(100), Some(200));
    let first = rides_at_date(&s, &t, SUNDAY + 1);
    let second = rides_at_date(&s, &t, SUNDAY + 1);
    assert_eq!(first, second);
    assert!(first);
}
