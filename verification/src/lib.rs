//! Core of a small life simulation: autonomous agents ("fellas") carry a
//! vector of decaying needs ("motives"), pick world objects to satisfy them,
//! and walk toward their targets on a pausable simulation clock.
//!
//! All quantities are fixed-point integers:
//! * simulation time is counted in milliseconds (one tick = 1000 ms),
//! * motive values live in `[0, MOTIVE_SCALE]` millionths of the unit interval,
//! * world coordinates are thousandths of a world unit.

use vstd::prelude::*;

pub mod fella;
pub mod geometry;
pub mod motives;
pub mod time;
pub mod utility;
pub mod world;

verus! {

/// Recoverable failures surfaced by the simulation core.
///
/// Degenerate geometry (a zero-length movement direction) is absorbed locally
/// by skipping the step, so it has no variant here.
#[derive(Clone, Copy, Debug, PartialEq, Eq, Structural)]
pub enum SimError {
    /// `time_since_ticks` was called with a snapshot taken later than `self`.
    InvalidTimeOrdering,
    /// A lookup used a stale or unknown agent handle.
    NotFound,
}

} // verus!
