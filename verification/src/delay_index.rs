//! The per-request index of real-time delay patches:
//! `trip id -> stop id -> Delay`.
//!
//! The index keeps the feed's entities in order; when a trip or a stop
//! appears more than once, the last occurrence wins, as it does when the
//! feed is drained into maps.
use vstd::prelude::*;

verus! {

use crate::delay::Delay;
use crate::strings::str_eq;

/// The delay patch one feed entity carries for one stop.
#[derive(Debug, Clone)]
pub struct StopDelay {
    pub stop_id: String,
    pub delay: Delay,
}

/// Abstract value of a `StopDelay`.
#[verifier::ext_equal]
pub struct StopDelayModel {
    pub stop_id: Seq<char>,
    pub delay: Delay,
}

impl View for StopDelay {
    type V = StopDelayModel;

    open spec fn view(&self) -> StopDelayModel {
        StopDelayModel { stop_id: self.stop_id@, delay: self.delay }
    }
}

impl DeepView for StopDelay {
    type V = StopDelayModel;

    open spec fn deep_view(&self) -> StopDelayModel {
        self.view()
    }
}

/// The delay patches one feed entity carries for one trip.
#[derive(Debug, Clone)]
pub struct TripDelays {
    pub trip_id: String,
    pub stop_delays: Vec<StopDelay>,
}

/// Abstract value of a `TripDelays`.
#[verifier::ext_equal]
pub struct TripDelaysModel {
    pub trip_id: Seq<char>,
    pub stop_delays: Seq<StopDelayModel>,
}

impl View for TripDelays {
    type V = TripDelaysModel;

    open spec fn view(&self) -> TripDelaysModel {
        TripDelaysModel { trip_id: self.trip_id@, stop_delays: self.stop_delays.deep_view() }
    }
}

impl DeepView for TripDelays {
    type V = TripDelaysModel;

    open spec fn deep_view(&self) -> TripDelaysModel {
        self.view()
    }
}

/// All delay patches of one real-time feed fetch.
#[derive(Debug, Clone)]
pub struct DelayIndex {
    pub trips: Vec<TripDelays>,
}

impl View for DelayIndex {
    type V = Seq<TripDelaysModel>;

    open spec fn view(&self) -> Seq<TripDelaysModel> {
        self.trips.deep_view()
    }
}

/// The stop delays of the last entity for `trip_id`, if any.
pub open spec fn spec_trip_delays(trips: Seq<TripDelaysModel>, trip_id: Seq<char>) -> Option<
    Seq<StopDelayModel>,
>
    decreases trips.len(),
{
    if trips.len() == 0 {
        None
    } else if trips.last().trip_id == trip_id {
        Some(trips.last().stop_delays)
    } else {
        spec_trip_delays(trips.drop_last(), trip_id)
    }
}

/// The delay of the last patch for `stop_id`, if any.
pub open spec fn spec_stop_delay(deltas: Seq<StopDelayModel>, stop_id: Seq<char>) -> Option<Delay>
    decreases deltas.len(),
{
    if deltas.len() == 0 {
        None
    } else if deltas.last().stop_id == stop_id {
        Some(deltas.last().delay)
    } else {
        spec_stop_delay(deltas.drop_last(), stop_id)
    }
}

/// The patch the index holds for one trip and stop, if any.
pub open spec fn spec_delay_for(
    trips: Seq<TripDelaysModel>,
    trip_id: Seq<char>,
    stop_id: Seq<char>,
) -> Option<Delay> {
    match spec_trip_delays(trips, trip_id) {
        None => None,
        Some(deltas) => spec_stop_delay(deltas, stop_id),
    }
}

impl DelayIndex {
    /// An index with no patches at all.
    pub fn empty() -> (r: DelayIndex)
        ensures
            r@ == Seq::<TripDelaysModel>::empty(),
    {
        let r = DelayIndex { trips: Vec::new() };
        proof {
            assert(r@ =~= Seq::<TripDelaysModel>::empty());
        }
        r
    }

    /// The patch for `(trip_id, stop_id)`, if the index holds one.
    pub fn delay_for(&self, trip_id: &str, stop_id: &str) -> (r: Option<Delay>)
        ensures
            r == spec_delay_for(self@, trip_id@, stop_id@),
    {
        let n = self.trips.len();
        let mut i: usize = n;
        proof {
            assert(self@.subrange(0, n as int) =~= self@);
        }
        while i > 0
            invariant
                i <= n,
                n == self.trips.len(),
                spec_trip_delays(self@, trip_id@) == spec_trip_delays(
                    self@.subrange(0, i as int),
                    trip_id@,
                ),
            decreases i,
        {
            i -= 1;
            proof {
                assert(self@.subrange(0, i as int + 1).drop_last() =~= self@.subrange(
                    0,
                    i as int,
                ));
                assert(self@.subrange(0, i as int + 1).last() == self@[i as int]);
            }
            if str_eq(self.trips[i].trip_id.as_str(), trip_id) {
                return stop_delay_in(&self.trips[i].stop_delays, stop_id);
            }
        }
        None
    }
}

/// The delay of the last patch for `stop_id` among `deltas`, if any.
fn stop_delay_in(deltas: &Vec<StopDelay>, stop_id: &str) -> (r: Option<Delay>)
    ensures
        r == spec_stop_delay(deltas.deep_view(), stop_id@),
{
    let n = deltas.len();
    let mut i: usize = n;
    proof {
        assert(deltas.deep_view().subrange(0, n as int) =~= deltas.deep_view());
    }
    while i > 0
        invariant
            i <= n,
            n == deltas.len(),
            spec_stop_delay(deltas.deep_view(), stop_id@) == spec_stop_delay(
                deltas.deep_view().subrange(0, i as int),
                stop_id@,
            ),
        decreases i,
    {
        i -= 1;
        proof {
            assert(deltas.deep_view().subrange(0, i as int + 1).drop_last()
                =~= deltas.deep_view().subrange(0, i as int));
            assert(deltas.deep_view().subrange(0, i as int + 1).last()
                == deltas.deep_view()[i as int]);
        }
        if str_eq(deltas[i].stop_id.as_str(), stop_id) {
            return Some(Delay {
                arrival_delay: deltas[i].delay.arrival_delay,
                departure_delay: deltas[i].delay.departure_delay,
            });
        }
    }
    None
}

/// One stop-time update of one feed entity, reduced to plain values:
/// the stop it concerns and the optional arrival/departure delays.
#[derive(Debug, Clone)]
pub struct FeedStopUpdate {
    pub stop_id: String,
    pub arrival: Option<i32>,
    pub departure: Option<i32>,
}

/// Abstract value of a `FeedStopUpdate`.
#[verifier::ext_equal]
pub struct FeedStopUpdateModel {
    pub stop_id: Seq<char>,
    pub arrival: Option<i32>,
    pub departure: Option<i32>,
}

impl View for FeedStopUpdate {
    type V = FeedStopUpdateModel;

    open spec fn view(&self) -> FeedStopUpdateModel {
        FeedStopUpdateModel { stop_id: self.stop_id@, arrival: self.arrival, departure: self.departure }
    }
}

impl DeepView for FeedStopUpdate {
    type V = FeedStopUpdateModel;

    open spec fn deep_view(&self) -> FeedStopUpdateModel {
        self.view()
    }
}

/// One trip update of one feed entity, reduced to plain values.
#[derive(Debug, Clone)]
pub struct FeedTripUpdate {
    pub trip_id: String,
    pub stop_updates: Vec<FeedStopUpdate>,
}

/// Abstract value of a `FeedTripUpdate`.
#[verifier::ext_equal]
pub struct FeedTripUpdateModel {
    pub trip_id: Seq<char>,
    pub stop_updates: Seq<FeedStopUpdateModel>,
}

impl View for FeedTripUpdate {
    type V = FeedTripUpdateModel;

    open spec fn view(&self) -> FeedTripUpdateModel {
        FeedTripUpdateModel { trip_id: self.trip_id@, stop_updates: self.stop_updates.deep_view() }
    }
}

impl DeepView for FeedTripUpdate {
    type V = FeedTripUpdateModel;

    open spec fn deep_view(&self) -> FeedTripUpdateModel {
        self.view()
    }
}

/// The delay a feed stop update contributes.
pub open spec fn update_to_delay(u: FeedStopUpdateModel) -> Delay {
    Delay { arrival_delay: u.arrival, departure_delay: u.departure }
}

/// The index entries a feed trip update's stop updates contribute.
pub open spec fn stop_delays_model(updates: Seq<FeedStopUpdateModel>) -> Seq<StopDelayModel> {
    updates.map_values(
        |s: FeedStopUpdateModel| StopDelayModel { stop_id: s.stop_id, delay: update_to_delay(s) },
    )
}

/// The index entry a feed trip update contributes.
pub open spec fn update_to_trip_delays(u: FeedTripUpdateModel) -> TripDelaysModel {
    TripDelaysModel { trip_id: u.trip_id, stop_delays: stop_delays_model(u.stop_updates) }
}

/// The whole index one feed fetch contributes, in feed order.
pub open spec fn index_of_feed(updates: Seq<FeedTripUpdateModel>) -> Seq<TripDelaysModel> {
    updates.map_values(|u: FeedTripUpdateModel| update_to_trip_delays(u))
}

impl DelayIndex {
    /// Builds the index from the trip updates of one real-time feed
    /// fetch, keeping the feed's order.
    pub fn from_feed(updates: Vec<FeedTripUpdate>) -> (r: DelayIndex)
        ensures
            r@ == index_of_feed(updates.deep_view()),
    {
        let ghost goal = index_of_feed(updates.deep_view());
        let n = updates.len();
        let mut trips: Vec<TripDelays> = Vec::new();
        let mut i: usize = 0;
        proof {
            assert(trips.deep_view() =~~= goal.subrange(0, 0));
        }
        while i < n
            invariant
                i <= n,
                n == updates.len(),
                goal == index_of_feed(updates.deep_view()),
                trips.deep_view() == goal.subrange(0, i as int),
            decreases n - i,
        {
            let ghost prev = trips.deep_view();
            let entry = trip_delays_of(&updates[i]);
            trips.push(entry);
            proof {
                assert(trips.deep_view() =~~= prev.push(entry@));
                assert(goal[i as int] == update_to_trip_delays(updates.deep_view()[i as int]));
                assert(goal.subrange(0, i as int + 1) =~= goal.subrange(0, i as int).push(
                    goal[i as int],
                ));
            }
            i += 1;
        }
        let r = DelayIndex { trips };
        proof {
            assert(goal.subrange(0, n as int) =~= goal);
        }
        r
    }
}

/// Converts one feed trip update into its index entry.
fn trip_delays_of(u: &FeedTripUpdate) -> (r: TripDelays)
    ensures
        r@ == update_to_trip_delays(u@),
{
    let ghost goal = stop_delays_model(u.stop_updates.deep_view());
    let n = u.stop_updates.len();
    let mut stop_delays: Vec<StopDelay> = Vec::new();
    let mut i: usize = 0;
    proof {
        assert(stop_delays.deep_view() =~~= goal.subrange(0, 0));
    }
    while i < n
        invariant
            i <= n,
            n == u.stop_updates.len(),
            goal == stop_delays_model(u.stop_updates.deep_view()),
            stop_delays.deep_view() == goal.subrange(0, i as int),
        decreases n - i,
    {
        let ghost prev = stop_delays.deep_view();
        let su = &u.stop_updates[i];
        let entry = StopDelay {
            stop_id: su.stop_id.clone(),
            delay: Delay::from_update(su.arrival, su.departure),
        };
        stop_delays.push(entry);
        proof {
            assert(stop_delays.deep_view() =~~= prev.push(entry@));
            assert(entry@ =~~= StopDelayModel {
                stop_id: u.stop_updates.deep_view()[i as int].stop_id,
                delay: update_to_delay(u.stop_updates.deep_view()[i as int]),
            });
            assert(goal[i as int] == (StopDelayModel {
                stop_id: u.stop_updates.deep_view()[i as int].stop_id,
                delay: update_to_delay(u.stop_updates.deep_view()[i as int]),
            }));
            assert(goal.subrange(0, i as int + 1) =~= goal.subrange(0, i as int).push(
                goal[i as int],
            ));
        }
        i += 1;
    }
    let r = TripDelays { trip_id: u.trip_id.clone(), stop_delays };
    proof {
        assert(goal.subrange(0, n as int) =~= goal);
        assert(r@ =~~= update_to_trip_delays(u@));
    }
    r
}

} // verus!
