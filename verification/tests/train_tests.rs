use delaymap::delay::Delay;
use delaymap::delay_index::{DelayIndex, StopDelay, TripDelays};
use delaymap::stop::ScheduledStop;
use delaymap::stop_time::ScheduledStopTime;
use delaymap::train::{DelayMapTrain, ScheduledTrip};

// Test trip, all times relative to a fixed noon:
// Stop 1: none-0:00, (0, 0)
// Stop 2: 1:00-1:05, (3, 3)
// Stop 3: 2:00-2:10, (3, 6)
// Stop 4: 3:00-none, (6, 6)
// Coordinates are microdegrees: 3 degrees = 3_000_000.

const NOON: u32 = 43200;

fn create_stoptime(
    stop_id: &str,
    stop_name: &str,
    stop_lat: Option<i64>,
    stop_lon: Option<i64>,
    arrival_time: Option<u32>,
    departure_time: Option<u32>,
) -> ScheduledStopTime {
    ScheduledStopTime {
        stop: ScheduledStop {
            id: stop_id.to_string(),
            name: stop_name.to_string(),
            lat: stop_lat,
            lon: stop_lon,
        },
        arrival_time,
        departure_time,
    }
}

fn create_trip(delta: i32) -> ScheduledTrip {
    let t_zero: u32 = (NOON as i32 - delta).try_into().unwrap();
    ScheduledTrip {
        id: "my-train".to_string(),
        headsign: Some("My Train".to_string()),
        service_id: "svc".to_string(),
        stop_times: vec![
            create_stoptime("stop1", "Stop 1", Some(0), Some(0), None, Some(t_zero)),
            create_stoptime(
                "stop2",
                "Stop 2",
                Some(3_000_000),
                Some(3_000_000),
                Some(t_zero + 60),
                Some(t_zero + 65),
            ),
            create_stoptime(
                "stop3",
                "Stop 3",
                Some(3_000_000),
                Some(6_000_000),
                Some(t_zero + 120),
                Some(t_zero + 130),
            ),
            create_stoptime(
                "stop4",
                "Stop 4",
                Some(6_000_000),
                Some(6_000_000),
                Some(t_zero + 180),
                None,
            ),
        ],
    }
}

fn index_for(trip_id: &str, entries: Vec<(&str, Option<i32>, Option<i32>)>) -> DelayIndex {
    DelayIndex {
        trips: vec![TripDelays {
            trip_id: trip_id.to_string(),
            stop_delays: entries
                .into_iter()
                .map(|(stop_id, arrival_delay, departure_delay)| StopDelay {
                    stop_id: stop_id.to_string(),
                    delay: Delay { arrival_delay, departure_delay },
                })
                .collect(),
        }],
    }
}

fn check_delays(
    train: DelayMapTrain,
    trip: ScheduledTrip,
    expected_arrival_delays: Vec<Option<i32>>,
    expected_departure_delays: Vec<Option<i32>>,
) {
    for i in 0..trip.stop_times.len() {
        assert_eq!(train.stops[i].arrival_delay, expected_arrival_delays[i]);
        assert_eq!(train.stops[i].departure_delay, expected_departure_delays[i]);

        assert_eq!(train.stops[i].arrival_timestamp, trip.stop_times[i].arrival_time);
        assert_eq!(train.stops[i].departure_timestamp, trip.stop_times[i].departure_time);
    }
}

// ----- NAME/ID TESTS -----
#[test]
fn test_trip_id_name() {
    let trip = create_trip(0);
    let train = DelayMapTrain::from_gtfs(&trip, &Some(DelayIndex::empty()), NOON);
    assert_eq!(train.name, "My Train".to_string());
    assert_eq!(train.id, "my-train".to_string());
}

#[test]
fn test_headsign_fallback() {
    let mut trip = create_trip(0);
    trip.headsign = None;
    let train = DelayMapTrain::from_gtfs(&trip, &None, NOON);
    assert_eq!(train.name, "Unknown Train".to_string());
}

// ----- INTERPOLATION TESTS -----
#[test]
fn test_interpolation_not_started() {
    let trip = create_trip(-10);
    let train = DelayMapTrain::from_gtfs(&trip, &Some(DelayIndex::empty()), NOON);
    assert_eq!(train.estimated_lat, 0);
    assert_eq!(train.estimated_lon, 0);
    assert_eq!(train.is_stopped, true);
    assert_eq!(train.stop_index, 0);
}

#[test]
fn test_interpolation_first_sector() {
    let trip = create_trip(40);
    let train = DelayMapTrain::from_gtfs(&trip, &Some(DelayIndex::empty()), NOON);
    assert_eq!(train.estimated_lat, 2_000_000);
    assert_eq!(train.estimated_lon, 2_000_000);
    assert_eq!(train.is_stopped, false);
    assert_eq!(train.stop_index, 1);
}

#[test]
fn test_interpolation_in_station() {
    let trip = create_trip(62);
    let train = DelayMapTrain::from_gtfs(&trip, &Some(DelayIndex::empty()), NOON);
    assert_eq!(train.estimated_lat, 3_000_000);
    assert_eq!(train.estimated_lon, 3_000_000);
    assert_eq!(train.is_stopped, true);
    assert_eq!(train.stop_index, 1);
}

#[test]
fn test_interpolation_last_sector() {
    let trip = create_trip(150);
    let train = DelayMapTrain::from_gtfs(&trip, &Some(DelayIndex::empty()), NOON);
    assert_eq!(train.estimated_lat, 4_200_000);
    assert_eq!(train.estimated_lon, 6_000_000);
    assert_eq!(train.is_stopped, false);
    assert_eq!(train.stop_index, 3);
}

#[test]
fn test_interpolation_arrived() {
    let trip = create_trip(200);
    let train = DelayMapTrain::from_gtfs(&trip, &Some(DelayIndex::empty()), NOON);
    assert_eq!(train.estimated_lat, 6_000_000);
    assert_eq!(train.estimated_lon, 6_000_000);
    assert_eq!(train.is_stopped, true);
    assert_eq!(train.stop_index, 3);
}

// ----- DELAY TESTS -----
#[test]
fn test_delay_none() {
    let trip = create_trip(0);
    let train = DelayMapTrain::from_gtfs(&trip, &Some(DelayIndex::empty()), NOON);

    check_delays(
        train,
        trip,
        vec![None, Some(0), Some(0), Some(0)],
        vec![Some(0), Some(0), Some(0), None],
    )
}

#[test]
fn test_delay_some() {
    let trip = create_trip(0);
    // Arrival and departure delays are two different delays: updating
    // one does not affect the other.
    let delaymap = index_for(
        "my-train",
        vec![("stop2", Some(2), Some(1)), ("stop3", Some(1), None)],
    );

    let train = DelayMapTrain::from_gtfs(&trip, &Some(delaymap), NOON);

    check_delays(
        train,
        trip,
        vec![None, Some(2), Some(1), Some(1)],
        vec![Some(0), Some(1), Some(1), None],
    )
}

#[test]
fn test_delay_begin_end() {
    let trip = create_trip(0);
    let delaymap = index_for(
        "my-train",
        vec![("stop1", None, Some(5)), ("stop4", Some(3), None)],
    );

    let train = DelayMapTrain::from_gtfs(&trip, &Some(delaymap), NOON);

    check_delays(
        train,
        trip,
        vec![None, Some(0), Some(0), Some(3)],
        vec![Some(5), Some(5), Some(5), None],
    )
}

#[test]
fn test_delay_negative() {
    let trip = create_trip(0);
    let delaymap = index_for(
        "my-train",
        vec![
            ("stop1", None, Some(0)),
            ("stop2", Some(-5), None),
            ("stop3", Some(0), None),
        ],
    );

    let train = DelayMapTrain::from_gtfs(&trip, &Some(delaymap), NOON);

    check_delays(
        train,
        trip,
        vec![None, Some(-5), Some(0), Some(0)],
        vec![Some(0), Some(0), Some(0), None],
    )
}

// ----- INTERPOLATION + DELAY -----
#[test]
fn test_interpolation_delay() {
    let trip = create_trip(80);
    let delaymap = index_for("my-train", vec![("stop2", Some(60), Some(60))]);

    let train = DelayMapTrain::from_gtfs(&trip, &Some(delaymap), NOON);

    assert_eq!(train.estimated_lat, 2_000_000);
    assert_eq!(train.estimated_lon, 2_000_000);
    assert_eq!(train.stop_index, 1);
    assert_eq!(train.is_stopped, false);
}

// ----- SCENARIOS ON A FIXED THREE-STOP TRIP -----
// Stops: A@none/43260 (1, 2), B@43320/43325 (3, 4), C@43380/none (5, 6),
// coordinates in whole microdegree millions.

fn scenario_trip() -> ScheduledTrip {
    ScheduledTrip {
        id: "T".to_string(),
        headsign: Some("T".to_string()),
        service_id: "svc".to_string(),
        stop_times: vec![
            create_stoptime("A", "A", Some(1_000_000), Some(2_000_000), None, Some(43260)),
            create_stoptime(
                "B",
                "B",
                Some(3_000_000),
                Some(4_000_000),
                Some(43320),
                Some(43325),
            ),
            create_stoptime("C", "C", Some(5_000_000), Some(6_000_000), Some(43380), None),
        ],
    }
}

#[test]
fn test_scenario_not_yet_departed() {
    let train = DelayMapTrain::from_gtfs(&scenario_trip(), &Some(DelayIndex::empty()), 43190);
    assert_eq!(train.stop_index, 0);
    assert_eq!(train.is_stopped, true);
    assert_eq!(train.estimated_lat, 1_000_000);
    assert_eq!(train.estimated_lon, 2_000_000);
}

#[test]
fn test_scenario_between_stops() {
    let train = DelayMapTrain::from_gtfs(&scenario_trip(), &Some(DelayIndex::empty()), 43290);
    assert_eq!(train.stop_index, 1);
    assert_eq!(train.is_stopped, false);
    assert_eq!(train.estimated_lat, 2_000_000);
    assert_eq!(train.estimated_lon, 3_000_000);
}

#[test]
fn test_scenario_dwelling() {
    let train = DelayMapTrain::from_gtfs(&scenario_trip(), &Some(DelayIndex::empty()), 43322);
    assert_eq!(train.stop_index, 1);
    assert_eq!(train.is_stopped, true);
    assert_eq!(train.estimated_lat, 3_000_000);
    assert_eq!(train.estimated_lon, 4_000_000);
}

#[test]
fn test_scenario_terminated() {
    let train = DelayMapTrain::from_gtfs(&scenario_trip(), &Some(DelayIndex::empty()), 43500);
    assert_eq!(train.stop_index, 2);
    assert_eq!(train.is_stopped, true);
    assert_eq!(train.estimated_lat, 5_000_000);
    assert_eq!(train.estimated_lon, 6_000_000);
}

#[test]
fn test_scenario_delay_propagates() {
    let delaymap = index_for("T", vec![("B", Some(60), Some(60))]);
    let train = DelayMapTrain::from_gtfs(&scenario_trip(), &Some(delaymap), 43280);
    assert_eq!(train.stop_index, 1);
    assert_eq!(train.is_stopped, false);
    assert_eq!(train.stops[0].arrival_delay, None);
    assert_eq!(train.stops[0].departure_delay, Some(0));
    assert_eq!(train.stops[1].arrival_delay, Some(60));
    assert_eq!(train.stops[1].departure_delay, Some(60));
    assert_eq!(train.stops[2].arrival_delay, Some(60));
    assert_eq!(train.stops[2].departure_delay, None);
}

#[test]
fn test_scenario_partial_patch() {
    let delaymap = index_for("T", vec![("B", Some(2), Some(1)), ("C", Some(1), None)]);
    let train = DelayMapTrain::from_gtfs(&scenario_trip(), &Some(delaymap), 43200);
    assert_eq!(train.stops[0].arrival_delay, None);
    assert_eq!(train.stops[0].departure_delay, Some(0));
    assert_eq!(train.stops[1].arrival_delay, Some(2));
    assert_eq!(train.stops[1].departure_delay, Some(1));
    assert_eq!(train.stops[2].arrival_delay, Some(1));
    assert_eq!(train.stops[2].departure_delay, None);
}

#[test]
fn test_snapshot_repeatable() {
    let delaymap = index_for("T", vec![("B", Some(60), Some(60))]);
    let first = DelayMapTrain::from_gtfs(&scenario_trip(), &Some(delaymap.clone()), 43280);
    let second = DelayMapTrain::from_gtfs(&scenario_trip(), &Some(delaymap), 43280);
    assert_eq!(first.id, second.id);
    assert_eq!(first.name, second.name);
    assert_eq!(first.stop_index, second.stop_index);
    assert_eq!(first.is_stopped, second.is_stopped);
    assert_eq!(first.estimated_lat, second.estimated_lat);
    assert_eq!(first.estimated_lon, second.estimated_lon);
    assert_eq!(first.stops.len(), second.stops.len());
    for i in 0..first.stops.len() {
        assert_eq!(first.stops[i].stop_id, second.stops[i].stop_id);
        assert_eq!(first.stops[i].arrival_delay, second.stops[i].arrival_delay);
        assert_eq!(first.stops[i].departure_delay, second.stops[i].departure_delay);
    }
}
