//! One emitted sample of a simulation: the elapsed time and the capacitor
//! voltage at that time, both in fixed-point units.

use vstd::prelude::*;

verus! {

/// A single (time, capacitor voltage) sample.
#[derive(Clone, Copy, Debug, PartialEq, Eq, Structural)]
pub struct Record {
    /// Elapsed simulated time, in fixed-point seconds.
    pub t: i64,
    /// Capacitor voltage at time `t`, in fixed-point volts.
    pub vc: i64,
}

} // verus!
