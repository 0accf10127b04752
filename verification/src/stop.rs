//! Stops of the static schedule, and their projection into responses.
//!
//! Coordinates are carried as fixed-point microdegrees (degrees scaled by
//! one million), so that positions can be reasoned about exactly.
use vstd::prelude::*;

verus! {

use crate::strings::str_eq;

/// A stop of the static schedule: identity, display name and optional
/// coordinates in microdegrees.
#[derive(Debug, Clone)]
pub struct ScheduledStop {
    pub id: String,
    pub name: String,
    pub lat: Option<i64>,
    pub lon: Option<i64>,
}

/// Abstract value of a `ScheduledStop`.
#[verifier::ext_equal]
pub struct StopModel {
    pub id: Seq<char>,
    pub name: Seq<char>,
    pub lat: Option<i64>,
    pub lon: Option<i64>,
}

impl View for ScheduledStop {
    type V = StopModel;

    open spec fn view(&self) -> StopModel {
        StopModel { id: self.id@, name: self.name@, lat: self.lat, lon: self.lon }
    }
}

impl DeepView for ScheduledStop {
    type V = StopModel;

    open spec fn deep_view(&self) -> StopModel {
        self.view()
    }
}

/// A stop as it appears in a response: display name, coordinates in
/// microdegrees, and identity.
#[derive(Debug, Clone)]
pub struct DelayMapStop {
    pub name: String,
    pub lat: Option<i64>,
    pub lon: Option<i64>,
    pub stop_id: String,
}

/// Abstract value of a `DelayMapStop`.
#[verifier::ext_equal]
pub struct DelayMapStopModel {
    pub name: Seq<char>,
    pub lat: Option<i64>,
    pub lon: Option<i64>,
    pub stop_id: Seq<char>,
}

impl View for DelayMapStop {
    type V = DelayMapStopModel;

    open spec fn view(&self) -> DelayMapStopModel {
        DelayMapStopModel { name: self.name@, lat: self.lat, lon: self.lon, stop_id: self.stop_id@ }
    }
}

impl DeepView for DelayMapStop {
    type V = DelayMapStopModel;

    open spec fn deep_view(&self) -> DelayMapStopModel {
        self.view()
    }
}

/// What a schedule stop looks like once projected into a response.
pub open spec fn stop_to_delaymap(s: StopModel) -> DelayMapStopModel {
    DelayMapStopModel { name: s.name, lat: s.lat, lon: s.lon, stop_id: s.id }
}

impl DelayMapStop {
    /// Projects a schedule stop into its response form: the name, the
    /// coordinates and the identity are copied unchanged.
    pub fn from_stop(stop: &ScheduledStop) -> (r: DelayMapStop)
        ensures
            r@ == stop_to_delaymap(stop@),
    {
        DelayMapStop {
            name: stop.name.clone(),
            lat: stop.lat,
            lon: stop.lon,
            stop_id: stop.id.clone(),
        }
    }
}

/// The first stop in `stops` whose id is `id`, if any.
pub open spec fn spec_lookup_stop(stops: Seq<StopModel>, id: Seq<char>) -> Option<StopModel>
    decreases stops.len(),
{
    if stops.len() == 0 {
        None
    } else if stops[0].id == id {
        Some(stops[0])
    } else {
        spec_lookup_stop(stops.drop_first(), id)
    }
}

/// The stops of the schedule that the works parser resolves station
/// references against, with names already in the request's language.
pub struct StopsTable {
    pub stops: Vec<ScheduledStop>,
}

impl View for StopsTable {
    type V = Seq<StopModel>;

    open spec fn view(&self) -> Seq<StopModel> {
        self.stops.deep_view()
    }
}

impl StopsTable {
    /// Looks a stop up by id and projects it into its response form;
    /// `None` when the id is unknown.
    pub fn lookup_translated(&self, id: &str) -> (r: Option<DelayMapStop>)
        ensures
            match spec_lookup_stop(self@, id@) {
                Some(s) => r is Some && r.unwrap()@ == stop_to_delaymap(s),
                None => r is None,
            },
    {
        let n = self.stops.len();
        let mut i: usize = 0;
        proof {
            assert(self@.subrange(0, n as int) =~= self@);
        }
        while i < n
            invariant
                i <= n,
                n == self.stops.len(),
                spec_lookup_stop(self@, id@) == spec_lookup_stop(
                    self@.subrange(i as int, n as int),
                    id@,
                ),
            decreases n - i,
        {
            proof {
                assert(self@.subrange(i as int, n as int).drop_first() =~= self@.subrange(
                    i as int + 1,
                    n as int,
                ));
            }
            if str_eq(self.stops[i].id.as_str(), id) {
                return Some(DelayMapStop::from_stop(&self.stops[i]));
            }
            i += 1;
        }
        None
    }
}

} // verus!
