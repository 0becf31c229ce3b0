//! Fixed-step Euler simulation of small linear circuits.
//!
//! Four integrators share one shape: an initial state, a per-step update
//! derived from Kirchhoff's laws, and a time series of (time, capacitor
//! voltage) records emitted once per step.  All quantities are carried in
//! saturating fixed-point arithmetic with six fractional decimal digits,
//! so every trajectory is an exact function of its configuration.

pub mod fixed;
pub mod record;
pub mod rc;
pub mod lc;
pub mod lcr;
