use delaymap::delay::Delay;
use delaymap::stop::{DelayMapStop, ScheduledStop};
use delaymap::stop_time::{DelayMapStopTime, ScheduledStopTime};

fn empty_stop() -> ScheduledStop {
    ScheduledStop { id: "".to_string(), name: "".to_string(), lat: None, lon: None }
}

#[test]
fn test_from_all_none() {
    let delay = Delay::from_update(None, None);
    assert_eq!(delay.arrival_delay, None);
    assert_eq!(delay.departure_delay, None);
}

#[test]
fn test_from_some() {
    // An arrival sub-record without a delay value means a delay of zero.
    let delay = Delay::from_update(Some(0), Some(25));
    assert_eq!(delay.arrival_delay, Some(0));
    assert_eq!(delay.departure_delay, Some(25));
}

#[test]
fn test_stop() {
    let stop = ScheduledStop {
        id: "stop1".to_string(),
        name: "Stop 1".to_string(),
        lat: Some(1_200_000),
        lon: Some(3_400_000),
    };

    let delaymap_stop = DelayMapStop::from_stop(&stop);

    assert_eq!(delaymap_stop.name, "Stop 1".to_string());
    assert_eq!(delaymap_stop.lat, Some(1_200_000));
    assert_eq!(delaymap_stop.lon, Some(3_400_000));
    assert_eq!(delaymap_stop.stop_id, "stop1".to_string());
}

#[test]
fn test_from_gtfs_full() {
    let stoptime = ScheduledStopTime {
        stop: ScheduledStop {
            id: "stop1_id".to_string(),
            name: "Stop 1".to_string(),
            lat: Some(13_370_000),
            lon: Some(4_200_000),
        },
        arrival_time: Some(123),
        departure_time: Some(456),
    };

    let delay = Delay { arrival_delay: Some(12), departure_delay: Some(34) };
    let dm_stoptime = DelayMapStopTime::from_gtfs(&stoptime, &delay);

    assert_eq!(dm_stoptime.name, "Stop 1");
    assert_eq!(dm_stoptime.lat, Some(13_370_000));
    assert_eq!(dm_stoptime.lon, Some(4_200_000));
    assert_eq!(dm_stoptime.arrival_delay, Some(12));
    assert_eq!(dm_stoptime.arrival_timestamp, Some(123));
    assert_eq!(dm_stoptime.departure_delay, Some(34));
    assert_eq!(dm_stoptime.departure_timestamp, Some(456));
    assert_eq!(dm_stoptime.stop_id, "stop1_id");
}

#[test]
fn test_from_gtfs_empty() {
    let stoptime = ScheduledStopTime { stop: empty_stop(), arrival_time: None, departure_time: None };
    let delay = Delay { arrival_delay: None, departure_delay: None };
    let dm_stoptime = DelayMapStopTime::from_gtfs(&stoptime, &delay);

    assert_eq!(dm_stoptime.name, "");
    assert_eq!(dm_stoptime.lat, None);
    assert_eq!(dm_stoptime.lon, None);
    assert_eq!(dm_stoptime.arrival_delay, None);
    assert_eq!(dm_stoptime.arrival_timestamp, None);
    assert_eq!(dm_stoptime.departure_delay, None);
    assert_eq!(dm_stoptime.departure_timestamp, None);
    assert_eq!(dm_stoptime.stop_id, "");
}
