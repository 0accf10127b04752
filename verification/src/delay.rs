//! Per-stop delay information carried by one real-time update.
use vstd::prelude::*;

verus! {

/// Optional arrival/departure delays, in seconds, from one real-time
/// stop-time update. A missing field means "no information", which is
/// distinct from a delay known to be zero.
#[derive(Debug, Clone, Copy)]
pub struct Delay {
    pub arrival_delay: Option<i32>,
    pub departure_delay: Option<i32>,
}

impl Delay {
    /// Builds a `Delay` from the optional arrival and departure delay
    /// fields of one real-time stop-time update.
    pub fn from_update(arrival: Option<i32>, departure: Option<i32>) -> (d: Delay)
        ensures
            d.arrival_delay == arrival,
            d.departure_delay == departure,
    {
        Delay { arrival_delay: arrival, departure_delay: departure }
    }
}

} // verus!
