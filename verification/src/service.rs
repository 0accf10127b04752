//! The compute side of the trains endpoint: which trips are running at a
//! given moment, and their snapshots.
use vstd::prelude::*;

verus! {

use crate::calendar::{rides_now, spec_rides_now, Schedule, ScheduleModel};
use crate::delay_index::{DelayIndex, TripDelaysModel};
use crate::train::{opt_index_model, spec_project, DelayMapTrain, ScheduledTrip, TrainModel, TripModel};

/// The snapshots of the trips running at `(today, now)`, in the order
/// the trips are given.
pub open spec fn spec_active_trains(
    schedule: ScheduleModel,
    trips: Seq<TripModel>,
    index: Option<Seq<TripDelaysModel>>,
    today: u32,
    now: u32,
) -> Seq<TrainModel>
    decreases trips.len(),
{
    if trips.len() == 0 {
        Seq::empty()
    } else {
        let rest = spec_active_trains(schedule, trips.drop_first(), index, today, now);
        if spec_rides_now(schedule, trips[0], today, now) {
            seq![spec_project(trips[0], index, now as int)] + rest
        } else {
            rest
        }
    }
}

/// Builds the snapshot of every trip that is running at second
/// `now_seconds` of day `today`, under the delay patches of `delays`.
/// Every trip must have at least one stop; `today` must have a
/// predecessor in the day numbering.
pub fn active_trains(
    schedule: &Schedule,
    trips: &Vec<ScheduledTrip>,
    delays: &Option<DelayIndex>,
    today: u32,
    now_seconds: u32,
) -> (r: Vec<DelayMapTrain>)
    requires
        today >= 1,
        forall|j: int| 0 <= j < trips@.len() ==> trips@[j].stop_times@.len() > 0,
    ensures
        r.deep_view() == spec_active_trains(
            schedule@,
            trips.deep_view(),
            opt_index_model(*delays),
            today,
            now_seconds,
        ),
{
    let ghost goal = spec_active_trains(
        schedule@,
        trips.deep_view(),
        opt_index_model(*delays),
        today,
        now_seconds,
    );
    let n = trips.len();
    let mut ret: Vec<DelayMapTrain> = Vec::new();
    let mut i: usize = 0;
    proof {
        assert(trips.deep_view().subrange(0, n as int) =~= trips.deep_view());
        assert(Seq::<TrainModel>::empty() + goal =~= goal);
    }
    while i < n
        invariant
            i <= n,
            n == trips@.len(),
            today >= 1,
            forall|j: int| 0 <= j < trips@.len() ==> trips@[j].stop_times@.len() > 0,
            goal == spec_active_trains(
                schedule@,
                trips.deep_view(),
                opt_index_model(*delays),
                today,
                now_seconds,
            ),
            goal == ret.deep_view() + spec_active_trains(
                schedule@,
                trips.deep_view().subrange(i as int, n as int),
                opt_index_model(*delays),
                today,
                now_seconds,
            ),
        decreases n - i,
    {
        let trip = &trips[i];
        proof {
            assert(trips.deep_view().subrange(i as int, n as int).drop_first()
                =~= trips.deep_view().subrange(i as int + 1, n as int));
            assert(trips.deep_view().subrange(i as int, n as int)[0] == trip.deep_view());
        }
        if rides_now(schedule, trip, today, now_seconds) {
            let ghost prev = ret.deep_view();
            let snapshot = DelayMapTrain::from_gtfs(trip, delays, now_seconds);
            ret.push(snapshot);
            proof {
                assert(ret.deep_view() =~~= prev.push(snapshot@));
                assert(prev.push(snapshot@) + spec_active_trains(
                    schedule@,
                    trips.deep_view().subrange(i as int + 1, n as int),
                    opt_index_model(*delays),
                    today,
                    now_seconds,
                ) =~= prev + (seq![snapshot@] + spec_active_trains(
                    schedule@,
                    trips.deep_view().subrange(i as int + 1, n as int),
                    opt_index_model(*delays),
                    today,
                    now_seconds,
                )));
            }
        }
        i += 1;
    }
    proof {
        assert(trips.deep_view().subrange(n as int, n as int) =~= Seq::<TripModel>::empty());
        assert(ret.deep_view() + Seq::<TrainModel>::empty() =~= ret.deep_view());
    }
    ret
}

} // verus!
