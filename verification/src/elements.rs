//! The per-body data: orbital elements, their cached trigonometry, and the
//! heliocentric position that is derived from them.
use crate::scalar::{Scalar, ZERO};
use vstd::prelude::*;

verus! {

/// A heliocentric cartesian position.
#[derive(Clone, Copy, Debug, PartialEq, Eq, Structural)]
pub struct Vector3 {
    pub x: Scalar,
    pub y: Scalar,
    pub z: Scalar,
}

impl Vector3 {
    /// The position at the origin, which every body holds until the first
    /// recomputation.
    pub open spec fn origin() -> Vector3 {
        Vector3 { x: ZERO, y: ZERO, z: ZERO }
    }

    /// Returns the position at the origin.
    pub fn new() -> (v: Vector3)
        ensures
            v == Vector3::origin(),
    {
        Vector3 { x: ZERO, y: ZERO, z: ZERO }
    }
}

/// The six classical Keplerian elements of one body.
#[derive(Clone, Copy, Debug, PartialEq, Eq, Structural)]
pub struct Asteroid {
    /// Eccentricity, in `[0, 1)`.
    pub e: Scalar,
    /// Semi-major axis in astronomical units, positive.
    pub a: Scalar,
    /// Inclination in radians.
    pub i: Scalar,
    /// Longitude of the ascending node in radians.
    pub long_asc: Scalar,
    /// Argument of periapsis in radians.
    pub arg_peri: Scalar,
    /// Mean anomaly at the epoch in radians.
    pub mean_anomaly: Scalar,
}

/// Sines and cosines of the three angles that orient an orbit, kept so that
/// the frame rotation never has to evaluate them again.
#[derive(Clone, Copy, Debug, PartialEq, Eq, Structural)]
pub struct AsteroidTrig {
    pub sin_arg_peri: Scalar,
    pub cos_arg_peri: Scalar,
    pub sin_long_asc: Scalar,
    pub cos_long_asc: Scalar,
    pub sin_inc: Scalar,
    pub cos_inc: Scalar,
}

impl AsteroidTrig {
    /// `self` holds, angle by angle, an outcome of `sin_cos` on the
    /// orientation angles of `body`.
    pub open spec fn derived_from<SC: Fn(Scalar) -> (Scalar, Scalar)>(
        self,
        sin_cos: SC,
        body: Asteroid,
    ) -> bool {
        &&& call_ensures(sin_cos, (body.arg_peri,), (self.sin_arg_peri, self.cos_arg_peri))
        &&& call_ensures(sin_cos, (body.long_asc,), (self.sin_long_asc, self.cos_long_asc))
        &&& call_ensures(sin_cos, (body.i,), (self.sin_inc, self.cos_inc))
    }

    /// Evaluates the trigonometry of a body's orientation angles, once each.
    pub fn new<SC: Fn(Scalar) -> (Scalar, Scalar)>(body: &Asteroid, sin_cos: &SC) -> (trig:
        AsteroidTrig)
        requires
            call_requires(*sin_cos, (body.arg_peri,)),
            call_requires(*sin_cos, (body.long_asc,)),
            call_requires(*sin_cos, (body.i,)),
        ensures
            trig.derived_from(*sin_cos, *body),
    {
        let (sin_arg_peri, cos_arg_peri) = sin_cos(body.arg_peri);
        let (sin_long_asc, cos_long_asc) = sin_cos(body.long_asc);
        let (sin_inc, cos_inc) = sin_cos(body.i);
        AsteroidTrig {
            sin_arg_peri,
            cos_arg_peri,
            sin_long_asc,
            cos_long_asc,
            sin_inc,
            cos_inc,
        }
    }
}

} // verus!
