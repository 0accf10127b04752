//! Laws of the engine, stated and proved over its specifications: the
//! shape of a snapshot's delays, how a patch shows up in the snapshot,
//! and that building a snapshot is a function of its inputs.
use vstd::prelude::*;

verus! {

use crate::delay_index::TripDelaysModel;
use crate::train::{
    bounded_delay,
    patched_delay,
    project_upto,
    spec_patch_for,
    spec_project,
    TripModel,
};

/// The stops of the projection after `k` steps are one snapshot per
/// processed stop, and the running departure delay is known before the
/// last stop is reached.
proof fn lemma_projection_shape(
    trip: TripModel,
    index: Option<Seq<TripDelaysModel>>,
    now: int,
    k: int,
)
    requires
        0 <= k <= trip.stop_times.len(),
    ensures
        ({
            let st = project_upto(trip, index, now, k);
            &&& st.stops.len() == k
            &&& (k < trip.stop_times.len() ==> st.curr_delay.departure_delay is Some)
            &&& forall|j: int|
                0 <= j < k ==> {
                    let s = #[trigger] st.stops[j];
                    &&& (j != 0 ==> s.arrival_delay is Some)
                    &&& (j == trip.stop_times.len() - 1 ==> s.departure_delay is None)
                    &&& (j != trip.stop_times.len() - 1 ==> s.departure_delay is Some)
                }
        }),
    decreases k,
{
    if k > 0 {
        lemma_projection_shape(trip, index, now, k - 1);
    }
}

/// Within one projection, a stop's snapshot is settled the moment its
/// stop is processed: later steps only append.
proof fn lemma_stops_stable(
    trip: TripModel,
    index: Option<Seq<TripDelaysModel>>,
    now: int,
    k: int,
    j: int,
)
    requires
        0 <= j < k <= trip.stop_times.len(),
    ensures
        project_upto(trip, index, now, k).stops[j] == project_upto(
            trip,
            index,
            now,
            j + 1,
        ).stops[j],
    decreases k,
{
    lemma_projection_shape(trip, index, now, k);
    if j + 1 < k {
        lemma_projection_shape(trip, index, now, k - 1);
        lemma_stops_stable(trip, index, now, k - 1, j);
    }
}

/// A snapshot has one stop per scheduled stop. Away from the ends, both
/// delays are always present: the arrival delay of every stop but the
/// first is filled in (with zero when nothing else is known), and the
/// departure delay of every stop but the last is carried forward from
/// the start's known zero. The last stop never has a departure delay.
pub proof fn lemma_snapshot_delay_shape(
    trip: TripModel,
    index: Option<Seq<TripDelaysModel>>,
    now: int,
)
    requires
        trip.stop_times.len() > 0,
    ensures
        ({
            let train = spec_project(trip, index, now);
            &&& train.stops.len() == trip.stop_times.len()
            &&& train.stops[trip.stop_times.len() - 1].departure_delay is None
            &&& forall|j: int|
                0 < j < trip.stop_times.len() ==> (#[trigger] train.stops[j]).arrival_delay
                    is Some
            &&& forall|j: int|
                0 <= j < trip.stop_times.len() - 1 ==> (#[trigger] train.stops[j]).departure_delay
                    is Some
        }),
{
    lemma_projection_shape(trip, index, now, trip.stop_times.len() as int);
}

/// When no patch provides an arrival delay for the first stop, the first
/// stop of the snapshot has none either.
pub proof fn lemma_first_stop_arrival_none(
    trip: TripModel,
    index: Option<Seq<TripDelaysModel>>,
    now: int,
)
    requires
        trip.stop_times.len() > 0,
        match spec_patch_for(index, trip.id, trip.stop_times[0].stop.id) {
            Some(p) => p.arrival_delay is None,
            None => true,
        },
    ensures
        spec_project(trip, index, now).stops[0].arrival_delay is None,
{
    lemma_stops_stable(trip, index, now, trip.stop_times.len() as int, 0);
    assert(project_upto(trip, index, now, 0) == crate::train::initial_projection());
    assert(project_upto(trip, index, now, 1) == crate::train::project_step(
        project_upto(trip, index, now, 0),
        trip.stop_times[0],
        spec_patch_for(index, trip.id, trip.stop_times[0].stop.id),
        0,
        trip.stop_times.len() - 1,
        now,
    ));
}

/// What a patch does to its stop's snapshot: a delay the patch provides
/// is taken over unchanged — an arrival anywhere, a departure anywhere
/// but at the last stop, where no departure delay survives. A delay the
/// patch leaves out falls back to the running delay carried from the
/// stops before, subject to the same boundary rules.
pub proof fn lemma_patch_applied(
    trip: TripModel,
    index: Option<Seq<TripDelaysModel>>,
    now: int,
    j: int,
)
    requires
        0 <= j < trip.stop_times.len(),
        spec_patch_for(index, trip.id, trip.stop_times[j].stop.id) is Some,
    ensures
        ({
            let p = spec_patch_for(index, trip.id, trip.stop_times[j].stop.id).unwrap();
            let s = spec_project(trip, index, now).stops[j];
            let carried = project_upto(trip, index, now, j).curr_delay;
            let applied = bounded_delay(
                patched_delay(carried, Some(p)),
                j,
                trip.stop_times.len() - 1,
            );
            &&& s.arrival_delay == applied.arrival_delay
            &&& s.departure_delay == applied.departure_delay
            &&& (p.arrival_delay is Some ==> s.arrival_delay == p.arrival_delay)
            &&& (p.departure_delay is Some && j < trip.stop_times.len() - 1 ==> s.departure_delay
                == p.departure_delay)
            &&& (j == trip.stop_times.len() - 1 ==> s.departure_delay is None)
        }),
{
    lemma_stops_stable(trip, index, now, trip.stop_times.len() as int, j);
    lemma_projection_shape(trip, index, now, j);
}

/// Building a snapshot is a function of the trip, the patches and the
/// moment alone: equal inputs give equal snapshots, so two builds for
/// the same inputs serialise identically.
pub proof fn lemma_project_deterministic(
    trip1: TripModel,
    trip2: TripModel,
    index1: Option<Seq<TripDelaysModel>>,
    index2: Option<Seq<TripDelaysModel>>,
    now1: int,
    now2: int,
)
    requires
        trip1 == trip2,
        index1 == index2,
        now1 == now2,
    ensures
        spec_project(trip1, index1, now1) == spec_project(trip2, index2, now2),
{
}

} // verus!
