//! The real arithmetic behind the propagation, and the pipeline that chains
//! it into a position.
//!
//! The operations are values of the caller. Verified code decides which
//! operation is applied to what and in which order; it assumes nothing of
//! what an operation returns.
use crate::elements::{Asteroid, AsteroidTrig, Vector3};
use crate::scalar::Scalar;
use crate::solver::{
    guess_is_function, lemma_solution_unique, solve_keplers_equation, solved, step_is_function,
    NewtonStep, Solution,
};
use vstd::prelude::*;

verus! {

/// Where the pipeline puts a body, and whether the solve behind it
/// converged.
#[derive(Clone, Copy, Debug, PartialEq, Eq, Structural)]
pub struct Placement {
    pub position: Vector3,
    pub converged: bool,
}

/// The operations on scalars that propagation is built from.
pub struct Numerics<SC, MM, MA, GA, GB, NS, PL, RO> {
    /// Sine and cosine of an angle, in that order.
    pub sin_cos: SC,
    /// Mean motion, in radians per second, of an orbit with the given
    /// semi-major axis.
    pub mean_motion: MM,
    /// Mean anomaly at a time, from the mean anomaly at the epoch, the mean
    /// motion, the epoch and the time, in that order.
    pub mean_anomaly_at: MA,
    /// Initial estimate of the eccentric anomaly for a mean anomaly of at
    /// most half a turn, from the mean anomaly and the eccentricity: half
    /// the eccentricity above the mean anomaly.
    pub guess_above: GA,
    /// Initial estimate of the eccentric anomaly for a mean anomaly beyond
    /// half a turn, from the mean anomaly and the eccentricity: half the
    /// eccentricity below the mean anomaly.
    pub guess_below: GB,
    /// One Newton refinement, from the current estimate, the mean anomaly
    /// and the eccentricity.
    pub step: NS,
    /// Position in the orbital plane, from the semi-major axis, the
    /// eccentricity and the eccentric anomaly.
    pub plane: PL,
    /// Rotation of an orbital-plane position into the heliocentric frame.
    pub rotate: RO,
}

impl<SC, MM, MA, GA, GB, NS, PL, RO> Numerics<SC, MM, MA, GA, GB, NS, PL, RO> where
    SC: Fn(Scalar) -> (Scalar, Scalar),
    MM: Fn(Scalar) -> Scalar,
    MA: Fn(Scalar, Scalar, Scalar, Scalar) -> Scalar,
    GA: Fn(Scalar, Scalar) -> Scalar,
    GB: Fn(Scalar, Scalar) -> Scalar,
    NS: Fn(Scalar, Scalar, Scalar) -> NewtonStep,
    PL: Fn(Scalar, Scalar, Scalar) -> (Scalar, Scalar),
    RO: Fn(AsteroidTrig, Scalar, Scalar) -> Vector3,
 {
    /// Every operation accepts every argument.
    pub open spec fn total(&self) -> bool {
        &&& forall|angle: Scalar| call_requires(self.sin_cos, (angle,))
        &&& forall|a: Scalar| call_requires(self.mean_motion, (a,))
        &&& forall|m0: Scalar, n: Scalar, epoch: Scalar, t: Scalar|
            call_requires(self.mean_anomaly_at, (m0, n, epoch, t))
        &&& forall|m: Scalar, e: Scalar| call_requires(self.guess_above, (m, e))
        &&& forall|m: Scalar, e: Scalar| call_requires(self.guess_below, (m, e))
        &&& forall|x: Scalar, m: Scalar, e: Scalar| call_requires(self.step, (x, m, e))
        &&& forall|a: Scalar, e: Scalar, x: Scalar| call_requires(self.plane, (a, e, x))
        &&& forall|trig: AsteroidTrig, x: Scalar, y: Scalar|
            call_requires(self.rotate, (trig, x, y))
    }

    /// Every operation is a function: given arguments have one outcome.
    pub open spec fn deterministic(&self) -> bool {
        &&& forall|angle: Scalar, p: (Scalar, Scalar), q: (Scalar, Scalar)|
            #[trigger] call_ensures(self.sin_cos, (angle,), p) && #[trigger] call_ensures(
                self.sin_cos,
                (angle,),
                q,
            ) ==> p == q
        &&& forall|a: Scalar, p: Scalar, q: Scalar|
            #[trigger] call_ensures(self.mean_motion, (a,), p) && #[trigger] call_ensures(
                self.mean_motion,
                (a,),
                q,
            ) ==> p == q
        &&& forall|m0: Scalar, n: Scalar, epoch: Scalar, t: Scalar, p: Scalar, q: Scalar|
            #[trigger] call_ensures(self.mean_anomaly_at, (m0, n, epoch, t), p)
                && #[trigger] call_ensures(self.mean_anomaly_at, (m0, n, epoch, t), q) ==> p == q
        &&& guess_is_function(self.guess_above)
        &&& guess_is_function(self.guess_below)
        &&& step_is_function(self.step)
        &&& forall|a: Scalar, e: Scalar, x: Scalar, p: (Scalar, Scalar), q: (Scalar, Scalar)|
            #[trigger] call_ensures(self.plane, (a, e, x), p) && #[trigger] call_ensures(
                self.plane,
                (a, e, x),
                q,
            ) ==> p == q
        &&& forall|trig: AsteroidTrig, x: Scalar, y: Scalar, p: Vector3, q: Vector3|
            #[trigger] call_ensures(self.rotate, (trig, x, y), p) && #[trigger] call_ensures(
                self.rotate,
                (trig, x, y),
                q,
            ) ==> p == q
    }

    /// The stages of the pipeline with their intermediate values: mean
    /// motion `n`, mean anomaly `m` at time `t`, solution `sol` of Kepler's
    /// equation, orbital-plane position `xy`, and the rotated position.
    pub open spec fn staged(
        &self,
        body: Asteroid,
        trig: AsteroidTrig,
        epoch: Scalar,
        t: Scalar,
        n: Scalar,
        m: Scalar,
        sol: Solution,
        xy: (Scalar, Scalar),
        out: Placement,
    ) -> bool {
        &&& call_ensures(self.mean_motion, (body.a,), n)
        &&& call_ensures(self.mean_anomaly_at, (body.mean_anomaly, n, epoch, t), m)
        &&& solved(self.guess_above, self.guess_below, self.step, m, body.e, sol)
        &&& call_ensures(self.plane, (body.a, body.e, sol.eccentric_anomaly), xy)
        &&& call_ensures(self.rotate, (trig, xy.0, xy.1), out.position)
        &&& out.converged == sol.converged
    }

    /// `out` is an outcome of propagating `body`, with cached trigonometry
    /// `trig`, from `epoch` to time `t`.
    pub open spec fn located(
        &self,
        body: Asteroid,
        trig: AsteroidTrig,
        epoch: Scalar,
        t: Scalar,
        out: Placement,
    ) -> bool {
        exists|n: Scalar, m: Scalar, sol: Solution, xy: (Scalar, Scalar)| #[trigger]
            self.staged(body, trig, epoch, t, n, m, sol, xy, out)
    }

    /// Propagates one body to time `t`: mean motion, then mean anomaly at
    /// `t`, then the eccentric anomaly, then the position in the orbital
    /// plane, then its rotation by the cached trigonometry.
    ///
    /// The mean motion is evaluated at every call rather than stored with
    /// the body: it is one operation, and the body keeps nothing that could
    /// go stale.
    pub fn locate(&self, body: &Asteroid, trig: &AsteroidTrig, epoch: Scalar, t: Scalar) -> (out:
        Placement)
        requires
            self.total(),
        ensures
            self.located(*body, *trig, epoch, t, out),
    {
        let n: Scalar = (self.mean_motion)(body.a);
        let m: Scalar = (self.mean_anomaly_at)(body.mean_anomaly, n, epoch, t);
        let sol = solve_keplers_equation(
            m,
            body.e,
            &self.guess_above,
            &self.guess_below,
            &self.step,
        );
        let xy = (self.plane)(body.a, body.e, sol.eccentric_anomaly);
        let position = (self.rotate)(*trig, xy.0, xy.1);
        let out = Placement { position, converged: sol.converged };
        proof {
            assert(self.staged(*body, *trig, epoch, t, n, m, sol, xy, out));
        }
        out
    }

    /// With operations that are functions, so is the pipeline: a body has
    /// one placement at a given time.
    pub proof fn lemma_location_unique(
        &self,
        body: Asteroid,
        trig: AsteroidTrig,
        epoch: Scalar,
        t: Scalar,
        first: Placement,
        second: Placement,
    )
        requires
            self.deterministic(),
            self.located(body, trig, epoch, t, first),
            self.located(body, trig, epoch, t, second),
        ensures
            first == second,
    {
        let (n1, m1, sol1, xy1) = choose|n: Scalar, m: Scalar, sol: Solution, xy: (Scalar, Scalar)|
         #[trigger]
            self.staged(body, trig, epoch, t, n, m, sol, xy, first);
        let (n2, m2, sol2, xy2) = choose|n: Scalar, m: Scalar, sol: Solution, xy: (Scalar, Scalar)|
         #[trigger]
            self.staged(body, trig, epoch, t, n, m, sol, xy, second);
        assert(n1 == n2);
        assert(m1 == m2);
        lemma_solution_unique(
            self.guess_above,
            self.guess_below,
            self.step,
            m1,
            body.e,
            sol1,
            sol2,
        );
        assert(xy1 == xy2);
    }
}

} // verus!
