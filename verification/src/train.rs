//! The train projector: for one trip, fuses the schedule, the real-time
//! delay patches and the current time of day into one snapshot — the
//! ordered stops with their applied delays, the index of the stop the
//! train is at or approaching, a stopped flag, and an estimated position.
use vstd::prelude::*;

verus! {

use vstd::arithmetic::div_mod::{lemma_div_is_ordered, lemma_div_multiples_vanish};
use vstd::arithmetic::mul::lemma_mul_inequality;
use vstd::string::StringExecFns;
use crate::delay::Delay;
use crate::delay_index::{spec_delay_for, DelayIndex, TripDelaysModel};
use crate::stop_time::{
    snapshot_stop,
    DelayMapStopTime,
    ScheduledStopTime,
    SnapshotStopModel,
    StopTimeModel,
};

/// One trip of the static schedule: identity, optional headsign, the
/// service its calendar hangs on, and its ordered, non-empty stops.
#[derive(Debug, Clone)]
pub struct ScheduledTrip {
    pub id: String,
    pub headsign: Option<String>,
    pub service_id: String,
    pub stop_times: Vec<ScheduledStopTime>,
}

/// Abstract value of a `ScheduledTrip`.
#[verifier::ext_equal]
pub struct TripModel {
    pub id: Seq<char>,
    pub headsign: Option<Seq<char>>,
    pub service_id: Seq<char>,
    pub stop_times: Seq<StopTimeModel>,
}

impl View for ScheduledTrip {
    type V = TripModel;

    open spec fn view(&self) -> TripModel {
        TripModel {
            id: self.id@,
            headsign: self.headsign.deep_view(),
            service_id: self.service_id@,
            stop_times: self.stop_times.deep_view(),
        }
    }
}

impl DeepView for ScheduledTrip {
    type V = TripModel;

    open spec fn deep_view(&self) -> TripModel {
        self.view()
    }
}

/// One trip's snapshot: its stops with applied delays, where the train
/// is, whether it stands at a station, and the estimated position in
/// microdegrees.
#[derive(Debug, Clone)]
pub struct DelayMapTrain {
    pub id: String,
    pub name: String,
    pub stops: Vec<DelayMapStopTime>,
    pub stop_index: usize,
    pub is_stopped: bool,
    pub estimated_lat: i64,
    pub estimated_lon: i64,
}

/// Abstract value of a `DelayMapTrain`.
#[verifier::ext_equal]
pub struct TrainModel {
    pub id: Seq<char>,
    pub name: Seq<char>,
    pub stops: Seq<SnapshotStopModel>,
    pub stop_index: int,
    pub is_stopped: bool,
    pub estimated_lat: int,
    pub estimated_lon: int,
}

impl View for DelayMapTrain {
    type V = TrainModel;

    open spec fn view(&self) -> TrainModel {
        TrainModel {
            id: self.id@,
            name: self.name@,
            stops: self.stops.deep_view(),
            stop_index: self.stop_index as int,
            is_stopped: self.is_stopped,
            estimated_lat: self.estimated_lat as int,
            estimated_lon: self.estimated_lon as int,
        }
    }
}

impl DeepView for DelayMapTrain {
    type V = TrainModel;

    open spec fn deep_view(&self) -> TrainModel {
        self.view()
    }
}

/// The running state the projector carries from stop to stop.
#[verifier::ext_equal]
pub struct Projection {
    pub stops: Seq<SnapshotStopModel>,
    pub curr_delay: Delay,
    pub prev_departure: int,
    pub prev_lat: i64,
    pub prev_lon: i64,
    pub stop_index: int,
    pub is_stopped: bool,
    pub est_lat: int,
    pub est_lon: int,
}

/// Before any stop: no arrival delay, a departure delay known to be
/// zero, and the defaults of the position decision.
pub open spec fn initial_projection() -> Projection {
    Projection {
        stops: Seq::empty(),
        curr_delay: Delay { arrival_delay: None, departure_delay: Some(0) },
        prev_departure: 0,
        prev_lat: 0,
        prev_lon: 0,
        stop_index: 0,
        is_stopped: false,
        est_lat: 0,
        est_lon: 0,
    }
}

/// The running delay after a patch: each field the patch provides
/// replaces the running one; a missing field keeps it.
pub open spec fn patched_delay(curr: Delay, patch: Option<Delay>) -> Delay {
    match patch {
        None => curr,
        Some(p) => Delay {
            arrival_delay: if p.arrival_delay is Some {
                p.arrival_delay
            } else {
                curr.arrival_delay
            },
            departure_delay: if p.departure_delay is Some {
                p.departure_delay
            } else {
                curr.departure_delay
            },
        },
    }
}

/// The boundary rules, applied after patching: only the first stop may
/// lack an arrival delay, and the last stop never has a departure delay.
pub open spec fn bounded_delay(d: Delay, i: int, last: int) -> Delay {
    Delay {
        arrival_delay: if i != 0 && d.arrival_delay is None {
            Some(0)
        } else {
            d.arrival_delay
        },
        departure_delay: if i == last {
            None
        } else {
            d.departure_delay
        },
    }
}

/// The actual arrival in seconds since midnight, or 0 when the stop has
/// no scheduled arrival or no arrival delay.
pub open spec fn actual_arrival(s: SnapshotStopModel) -> int {
    if s.arrival_timestamp is Some && s.arrival_delay is Some {
        s.arrival_timestamp.unwrap() + s.arrival_delay.unwrap()
    } else {
        0
    }
}

/// The actual departure in seconds since midnight, or the largest `i64`
/// when the stop has no scheduled departure or no departure delay.
pub open spec fn actual_departure(s: SnapshotStopModel) -> int {
    if s.departure_timestamp is Some && s.departure_delay is Some {
        s.departure_timestamp.unwrap() + s.departure_delay.unwrap()
    } else {
        i64::MAX as int
    }
}

/// A coordinate, with 0 substituted when it is missing.
pub open spec fn coord_or_zero(c: Option<i64>) -> i64 {
    match c {
        Some(v) => v,
        None => 0,
    }
}

/// Linear interpolation between `prev` and `curr` by the fraction
/// `num / den`, rounded towards `prev`.
pub open spec fn interp_coord(prev: int, curr: int, num: int, den: int) -> int {
    if curr >= prev {
        prev + (curr - prev) * num / den
    } else {
        prev - (prev - curr) * num / den
    }
}

/// At fraction 0 the interpolation sits at `prev`; at fraction 1, at
/// `curr`.
pub proof fn lemma_interp_endpoints(prev: int, curr: int, den: int)
    requires
        den > 0,
    ensures
        interp_coord(prev, curr, 0, den) == prev,
        interp_coord(prev, curr, den, den) == curr,
{
    if curr >= prev {
        lemma_div_multiples_vanish(curr - prev, den);
        assert(den * (curr - prev) == (curr - prev) * den) by (nonlinear_arith);
        assert((curr - prev) * 0 == 0) by (nonlinear_arith);
    } else {
        lemma_div_multiples_vanish(prev - curr, den);
        assert(den * (prev - curr) == (prev - curr) * den) by (nonlinear_arith);
        assert((prev - curr) * 0 == 0) by (nonlinear_arith);
    }
}

/// The interpolation stays between its two endpoints.
pub proof fn lemma_interp_bounds(prev: int, curr: int, num: int, den: int)
    requires
        0 <= num <= den,
        0 < den,
    ensures
        curr >= prev ==> prev <= interp_coord(prev, curr, num, den) <= curr,
        curr < prev ==> curr <= interp_coord(prev, curr, num, den) <= prev,
{
    if curr >= prev {
        let delta = curr - prev;
        lemma_mul_inequality(num, den, delta);
        assert(num * delta == delta * num) by (nonlinear_arith);
        assert(den * delta == delta * den) by (nonlinear_arith);
        lemma_div_is_ordered(0, delta * num, den);
        lemma_div_is_ordered(delta * num, delta * den, den);
        lemma_div_multiples_vanish(delta, den);
        assert(den * delta == delta * den) by (nonlinear_arith);
    } else {
        let delta = prev - curr;
        lemma_mul_inequality(num, den, delta);
        assert(num * delta == delta * num) by (nonlinear_arith);
        assert(den * delta == delta * den) by (nonlinear_arith);
        lemma_div_is_ordered(0, delta * num, den);
        lemma_div_is_ordered(delta * num, delta * den, den);
        lemma_div_multiples_vanish(delta, den);
        assert(den * delta == delta * den) by (nonlinear_arith);
    }
}

/// Executable form of `interp_coord`.
fn interp_coord_exec(prev: i64, curr: i64, num: i64, den: i64) -> (r: i64)
    requires
        0 < num < den,
    ensures
        r as int == interp_coord(prev as int, curr as int, num as int, den as int),
{
    proof {
        lemma_interp_bounds(prev as int, curr as int, num as int, den as int);
    }
    if curr >= prev {
        let delta = (curr as i128) - (prev as i128);
        proof {
            assert((delta as u128) * (num as u128) < u128::MAX) by (nonlinear_arith)
                requires
                    (delta as u128) < 0x20000000000000000u128,
                    (num as u128) < 0x8000000000000000u128,
            ;
        }
        let q = ((delta as u128) * (num as u128)) / (den as u128);
        proof {
            assert((delta as u128 as int) * (num as u128 as int) == delta * (num as int));
            assert(q as int == delta * (num as int) / (den as int));
        }
        ((prev as i128) + (q as i128)) as i64
    } else {
        let delta = (prev as i128) - (curr as i128);
        proof {
            assert((delta as u128) * (num as u128) < u128::MAX) by (nonlinear_arith)
                requires
                    (delta as u128) < 0x20000000000000000u128,
                    (num as u128) < 0x8000000000000000u128,
            ;
        }
        let q = ((delta as u128) * (num as u128)) / (den as u128);
        proof {
            assert((delta as u128 as int) * (num as u128 as int) == delta * (num as int));
            assert(q as int == delta * (num as int) / (den as int));
        }
        ((prev as i128) - (q as i128)) as i64
    }
}

/// One step of the projection: patch the running delay, apply the
/// boundary rules, build the stop's snapshot, decide the train's state
/// by the first matching rule, and carry the stop's actual departure and
/// coordinates forward.
pub open spec fn project_step(
    st: Projection,
    stop_time: StopTimeModel,
    patch: Option<Delay>,
    i: int,
    last: int,
    now: int,
) -> Projection {
    let d = bounded_delay(patched_delay(st.curr_delay, patch), i, last);
    let s = snapshot_stop(stop_time, d);
    let aa = actual_arrival(s);
    let ad = actual_departure(s);
    let lat = coord_or_zero(s.lat);
    let lon = coord_or_zero(s.lon);
    let decided = if ad > now && (i == 0 || aa < now) {
        Projection { stop_index: i, is_stopped: true, est_lat: lat as int, est_lon: lon as int, ..st }
    } else if aa > now && st.prev_departure < now {
        let num = now - st.prev_departure;
        let den = aa - st.prev_departure;
        Projection {
            stop_index: i,
            is_stopped: false,
            est_lat: interp_coord(st.prev_lat as int, lat as int, num, den),
            est_lon: interp_coord(st.prev_lon as int, lon as int, num, den),
            ..st
        }
    } else if aa < now && i == last {
        Projection { stop_index: i, is_stopped: true, est_lat: lat as int, est_lon: lon as int, ..st }
    } else {
        st
    };
    Projection {
        stops: st.stops.push(s),
        curr_delay: d,
        prev_departure: ad,
        prev_lat: lat,
        prev_lon: lon,
        ..decided
    }
}

/// The patch the optional index holds for one trip and stop.
pub open spec fn spec_patch_for(
    index: Option<Seq<TripDelaysModel>>,
    trip_id: Seq<char>,
    stop_id: Seq<char>,
) -> Option<Delay> {
    match index {
        None => None,
        Some(ix) => spec_delay_for(ix, trip_id, stop_id),
    }
}

/// The abstract value of an optional delay index.
pub open spec fn opt_index_model(m: Option<DelayIndex>) -> Option<Seq<TripDelaysModel>> {
    match m {
        None => None,
        Some(ix) => Some(ix@),
    }
}

/// The projection state after the first `k` stops of `trip`.
pub open spec fn project_upto(
    trip: TripModel,
    index: Option<Seq<TripDelaysModel>>,
    now: int,
    k: int,
) -> Projection
    decreases k,
{
    if k <= 0 {
        initial_projection()
    } else {
        let st = project_upto(trip, index, now, k - 1);
        let stop_time = trip.stop_times[k - 1];
        project_step(
            st,
            stop_time,
            spec_patch_for(index, trip.id, stop_time.stop.id),
            k - 1,
            trip.stop_times.len() - 1,
            now,
        )
    }
}

/// The display name of a trip: its headsign, or a fixed fallback.
pub open spec fn spec_train_name(headsign: Option<Seq<char>>) -> Seq<char> {
    match headsign {
        Some(h) => h,
        None => "Unknown Train"@,
    }
}

/// The whole snapshot of one trip at second `now` of the day.
pub open spec fn spec_project(
    trip: TripModel,
    index: Option<Seq<TripDelaysModel>>,
    now: int,
) -> TrainModel {
    let st = project_upto(trip, index, now, trip.stop_times.len() as int);
    TrainModel {
        id: trip.id,
        name: spec_train_name(trip.headsign),
        stops: st.stops,
        stop_index: st.stop_index,
        is_stopped: st.is_stopped,
        estimated_lat: st.est_lat,
        estimated_lon: st.est_lon,
    }
}

/// The patch for `(trip_id, stop_id)` in an optional index.
fn patch_for(maybe: &Option<DelayIndex>, trip_id: &str, stop_id: &str) -> (r: Option<Delay>)
    ensures
        r == spec_patch_for(opt_index_model(*maybe), trip_id@, stop_id@),
{
    match maybe {
        None => None,
        Some(ix) => ix.delay_for(trip_id, stop_id),
    }
}

impl DelayMapTrain {
    /// Builds the snapshot of `trip` under the patches of
    /// `maybe_delaymap` at second `now_seconds` of the local day.
    ///
    /// The snapshot's stop index always points into its stops.
    #[verifier::loop_isolation(false)]
    #[verifier::rlimit(60)]
    pub fn from_gtfs(
        trip: &ScheduledTrip,
        maybe_delaymap: &Option<DelayIndex>,
        now_seconds: u32,
    ) -> (r: DelayMapTrain)
        requires
            trip.stop_times@.len() > 0,
        ensures
            r@ == spec_project(trip.deep_view(), opt_index_model(*maybe_delaymap), now_seconds as int),
            r.stop_index < r.stops@.len(),
    {
        let ghost tm = trip.deep_view();
        let ghost ix = opt_index_model(*maybe_delaymap);
        let ghost now = now_seconds as int;

        let mut ret = DelayMapTrain {
            id: trip.id.clone(),
            name: match &trip.headsign {
                Some(h) => h.clone(),
                None => String::from_str("Unknown Train"),
            },
            stops: Vec::new(),
            stop_index: 0,
            is_stopped: false,
            estimated_lat: 0,
            estimated_lon: 0,
        };

        let mut curr_delay = Delay { arrival_delay: None, departure_delay: Some(0) };

        let local_timestamp: i64 = now_seconds as i64;
        let mut previous_departure: i64 = 0;
        let mut previous_stop_lat: i64 = 0;
        let mut previous_stop_lon: i64 = 0;
        let n = trip.stop_times.len();
        let last_stop_i = n - 1;

        let mut i: usize = 0;
        proof {
            assert(ret.stops.deep_view() =~= project_upto(tm, ix, now, 0).stops);
        }
        while i < n
            invariant
                i <= n,
                ({
                    let g = project_upto(tm, ix, now, i as int);
                    &&& ret.stops.deep_view() == g.stops
                    &&& curr_delay == g.curr_delay
                    &&& previous_departure as int == g.prev_departure
                    &&& previous_stop_lat == g.prev_lat
                    &&& previous_stop_lon == g.prev_lon
                    &&& ret.stop_index as int == g.stop_index
                    &&& ret.is_stopped == g.is_stopped
                    &&& ret.estimated_lat as int == g.est_lat
                    &&& ret.estimated_lon as int == g.est_lon
                    &&& 0 <= g.stop_index < n
                    &&& g.stops.len() == i
                }),
                ret.id@ == tm.id,
                ret.name@ == spec_train_name(tm.headsign),
            decreases n - i,
        {
            let ghost g = project_upto(tm, ix, now, i as int);
            let ghost g_next = project_upto(tm, ix, now, i as int + 1);
            let stop_time = &trip.stop_times[i];
            let ghost patch_spec = spec_patch_for(ix, tm.id, tm.stop_times[i as int].stop.id);

            let patch = patch_for(maybe_delaymap, trip.id.as_str(), stop_time.stop.id.as_str());

            if let Some(delay_patch) = patch {
                curr_delay.arrival_delay = match delay_patch.arrival_delay {
                    Some(a) => Some(a),
                    None => curr_delay.arrival_delay,
                };
                curr_delay.departure_delay = match delay_patch.departure_delay {
                    Some(d) => Some(d),
                    None => curr_delay.departure_delay,
                };
            }
            proof {
                assert(curr_delay == patched_delay(g.curr_delay, patch_spec));
            }

            if i != 0 && curr_delay.arrival_delay.is_none() {
                curr_delay.arrival_delay = Some(0);
            }
            if i == last_stop_i {
                curr_delay.departure_delay = None;
            }
            proof {
                assert(curr_delay == bounded_delay(
                    patched_delay(g.curr_delay, patch_spec),
                    i as int,
                    n - 1,
                ));
            }

            let stop = DelayMapStopTime::from_gtfs(stop_time, &curr_delay);

            let actual_arrival: i64 = if stop.arrival_timestamp.is_some()
                && stop.arrival_delay.is_some() {
                (stop.arrival_timestamp.unwrap() as i64) + (stop.arrival_delay.unwrap() as i64)
            } else {
                0
            };
            let actual_departure: i64 = if stop.departure_timestamp.is_some()
                && stop.departure_delay.is_some() {
                (stop.departure_timestamp.unwrap() as i64) + (stop.departure_delay.unwrap() as i64)
            } else {
                i64::MAX
            };

            let curr_stop_lat = match stop.lat {
                Some(v) => v,
                None => 0,
            };
            let curr_stop_lon = match stop.lon {
                Some(v) => v,
                None => 0,
            };

            if actual_departure > local_timestamp && (i == 0 || actual_arrival < local_timestamp) {
                ret.stop_index = i;
                ret.is_stopped = true;
                ret.estimated_lat = curr_stop_lat;
                ret.estimated_lon = curr_stop_lon;
            } else if actual_arrival > local_timestamp && previous_departure < local_timestamp {
                ret.stop_index = i;
                ret.is_stopped = false;
                let num = local_timestamp - previous_departure;
                let den = actual_arrival - previous_departure;
                ret.estimated_lat = interp_coord_exec(previous_stop_lat, curr_stop_lat, num, den);
                ret.estimated_lon = interp_coord_exec(previous_stop_lon, curr_stop_lon, num, den);
            } else if actual_arrival < local_timestamp && i == last_stop_i {
                ret.stop_index = i;
                ret.is_stopped = true;
                ret.estimated_lat = curr_stop_lat;
                ret.estimated_lon = curr_stop_lon;
            }

            previous_departure = actual_departure;
            previous_stop_lat = curr_stop_lat;
            previous_stop_lon = curr_stop_lon;
            let ghost prev_stops = ret.stops.deep_view();
            ret.stops.push(stop);

            proof {
                assert(g_next == project_step(
                    g,
                    tm.stop_times[i as int],
                    patch_spec,
                    i as int,
                    n - 1,
                    now,
                ));
                assert(ret.stops.deep_view() =~~= prev_stops.push(stop@));
            }

            i += 1;
        }

        proof {
            let gf = project_upto(tm, ix, now, n as int);
            assert(tm.stop_times.len() == n as int);
            assert(ret.id@ == tm.id);
            assert(ret.name@ == spec_train_name(tm.headsign));
            assert(ret.stops.deep_view() == gf.stops);
            assert(ret@ =~~= spec_project(tm, ix, now));
        }
        ret
    }
}

} // verus!
