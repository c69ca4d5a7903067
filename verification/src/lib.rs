//! Keplerian orbit propagation for batches of bodies around the sun.
//!
//! The crate takes every decision of the propagation and keeps its books:
//! where the Newton iteration for Kepler's equation starts and when it
//! stops, the order in which the stages of the per-body pipeline feed each
//! other, and the index-aligned batch container. Scalars are IEEE-754
//! singles carried as bit patterns; comparisons are made on the encoding,
//! while arithmetic is supplied by the caller as a bundle of operations.
//! Every contract holds for any such bundle, and the laws in `determinism`
//! hold for every bundle whose operations are functions.
pub mod asteroid_set;
pub mod determinism;
pub mod elements;
pub mod numerics;
pub mod scalar;
pub mod solver;

pub use asteroid_set::{AsteroidSet, BodyRecord, SetModel};
pub use elements::{Asteroid, AsteroidTrig, Vector3};
pub use numerics::{Numerics, Placement};
pub use scalar::{is_greater, magnitude, magnitude_at_most, Scalar, ZERO};
pub use solver::{
    solve_keplers_equation, NewtonStep, Solution, HALF_TURN, KEPLER_TOLERANCE, MAX_ITERATIONS,
};
