//! The delaymap engine: where is every running train of the network
//! right now, and how delayed is each of its stops?
//!
//! For every trip scheduled to be running at a given moment, the engine
//! fuses the static schedule (stops, times, calendars and their
//! exceptions), a stream of real-time per-stop delay patches, and the
//! time of day into a per-trip snapshot: the ordered stops with their
//! applied delays, the index of the stop the train is at or
//! approaching, a stopped flag, and an interpolated position. A second,
//! smaller engine parses the operator's line-oriented works feed into
//! incident records tied to the schedule's stations.
//!
//! Every function is specified and verified; what the snapshot and the
//! parser return is pinned down exactly by the spec functions next to
//! them, and the engine's laws are proved in `laws` and beside the
//! parser.
use vstd::prelude::*;

pub mod calendar;
pub mod clock;
pub mod delay;
pub mod delay_index;
pub mod laws;
pub mod service;
pub mod stop;
pub mod stop_time;
pub mod strings;
pub mod train;
pub mod works;
pub mod works_parser;

verus! {

} // verus!
