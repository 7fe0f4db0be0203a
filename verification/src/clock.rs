//! Readings of the clocks.

use vstd::prelude::*;

verus! {

/// A point in time: seconds since the epoch, and nanoseconds into the second.
#[derive(Clone, Copy, Debug, PartialEq, Eq, Structural)]
pub struct Timestamp {
    pub secs: i64,
    pub nanos: u32,
}

/// A reading of the clocks.
#[derive(Clone, Copy, Debug, PartialEq, Eq, Structural)]
pub struct Moment {
    /// Nanoseconds on a clock that never goes back.
    pub ticks: u128,
    /// The time of day.
    pub wall: Timestamp,
}

} // verus!
