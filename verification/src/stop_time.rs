//! One stop of one trip: its scheduled times, and its view in a snapshot.
use vstd::prelude::*;

verus! {

use crate::delay::Delay;
use crate::stop::{ScheduledStop, StopModel};

/// One scheduled call of a trip at a stop. Times are seconds from the
/// service-day's midnight and may exceed 86,400 for trips spilling past
/// midnight. The first stop may lack an arrival; the last may lack a
/// departure.
#[derive(Debug, Clone)]
pub struct ScheduledStopTime {
    pub stop: ScheduledStop,
    pub arrival_time: Option<u32>,
    pub departure_time: Option<u32>,
}

/// Abstract value of a `ScheduledStopTime`.
#[verifier::ext_equal]
pub struct StopTimeModel {
    pub stop: StopModel,
    pub arrival_time: Option<u32>,
    pub departure_time: Option<u32>,
}

impl View for ScheduledStopTime {
    type V = StopTimeModel;

    open spec fn view(&self) -> StopTimeModel {
        StopTimeModel {
            stop: self.stop@,
            arrival_time: self.arrival_time,
            departure_time: self.departure_time,
        }
    }
}

impl DeepView for ScheduledStopTime {
    type V = StopTimeModel;

    open spec fn deep_view(&self) -> StopTimeModel {
        self.view()
    }
}

/// One stop's view in a per-trip snapshot: identity, coordinates in
/// microdegrees, scheduled times and the delays applied to them.
/// An arrival delay is `None` only at the first stop; a departure delay
/// is `None` only at the last.
#[derive(Debug, Clone)]
pub struct DelayMapStopTime {
    pub name: String,
    pub lat: Option<i64>,
    pub lon: Option<i64>,
    pub arrival_delay: Option<i32>,
    pub arrival_timestamp: Option<u32>,
    pub departure_delay: Option<i32>,
    pub departure_timestamp: Option<u32>,
    pub stop_id: String,
}

/// Abstract value of a `DelayMapStopTime`.
#[verifier::ext_equal]
pub struct SnapshotStopModel {
    pub name: Seq<char>,
    pub lat: Option<i64>,
    pub lon: Option<i64>,
    pub arrival_delay: Option<i32>,
    pub arrival_timestamp: Option<u32>,
    pub departure_delay: Option<i32>,
    pub departure_timestamp: Option<u32>,
    pub stop_id: Seq<char>,
}

impl View for DelayMapStopTime {
    type V = SnapshotStopModel;

    open spec fn view(&self) -> SnapshotStopModel {
        SnapshotStopModel {
            name: self.name@,
            lat: self.lat,
            lon: self.lon,
            arrival_delay: self.arrival_delay,
            arrival_timestamp: self.arrival_timestamp,
            departure_delay: self.departure_delay,
            departure_timestamp: self.departure_timestamp,
            stop_id: self.stop_id@,
        }
    }
}

impl DeepView for DelayMapStopTime {
    type V = SnapshotStopModel;

    open spec fn deep_view(&self) -> SnapshotStopModel {
        self.view()
    }
}

/// The snapshot stop built from one scheduled call and the delay applied
/// to it: identity, coordinates and scheduled times are copied, the delay
/// optionals are copied unchanged.
pub open spec fn snapshot_stop(st: StopTimeModel, d: Delay) -> SnapshotStopModel {
    SnapshotStopModel {
        name: st.stop.name,
        lat: st.stop.lat,
        lon: st.stop.lon,
        arrival_delay: d.arrival_delay,
        arrival_timestamp: st.arrival_time,
        departure_delay: d.departure_delay,
        departure_timestamp: st.departure_time,
        stop_id: st.stop.id,
    }
}

impl DelayMapStopTime {
    /// Builds the snapshot view of one scheduled call under `delay`.
    pub fn from_gtfs(stoptime: &ScheduledStopTime, delay: &Delay) -> (r: DelayMapStopTime)
        ensures
            r@ == snapshot_stop(stoptime@, *delay),
    {
        DelayMapStopTime {
            name: stoptime.stop.name.clone(),
            lat: stoptime.stop.lat,
            lon: stoptime.stop.lon,
            arrival_delay: delay.arrival_delay,
            arrival_timestamp: stoptime.arrival_time,
            departure_delay: delay.departure_delay,
            departure_timestamp: stoptime.departure_time,
            stop_id: stoptime.stop.id.clone(),
        }
    }
}

} // verus!
