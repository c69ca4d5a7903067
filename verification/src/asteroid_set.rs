//! The batch container: many bodies, propagated together.
//!
//! Elements, cached trigonometry and positions live in three index-aligned
//! arrays, so that the positions form one contiguous block a host can read
//! in place. Contracts speak of the sequence of per-body records that the
//! three arrays stand for.
use crate::elements::{Asteroid, AsteroidTrig, Vector3};
use crate::numerics::{Numerics, Placement};
use crate::scalar::{Scalar, ZERO};
use crate::solver::NewtonStep;
use vstd::prelude::*;

verus! {

/// All that is stored for one body.
pub struct BodyRecord {
    /// The orbital elements given at insertion.
    pub elements: Asteroid,
    /// Their trigonometry, evaluated at insertion.
    pub trig: AsteroidTrig,
    /// The position as of the last recomputation.
    pub position: Vector3,
}

/// What a set stands for: the shared epoch and the records of its bodies
/// in insertion order.
pub struct SetModel {
    pub epoch: Scalar,
    pub bodies: Seq<BodyRecord>,
}

/// How many of the placements come from a solve that did not converge.
pub open spec fn stalled_count(outcomes: Seq<Placement>) -> nat {
    outcomes.filter(|p: Placement| !p.converged).len()
}

impl SetModel {
    /// The positions alone, in insertion order.
    pub open spec fn positions(self) -> Seq<Vector3> {
        Seq::new(self.bodies.len(), |i: int| self.bodies[i].position)
    }

    /// The elements alone, in insertion order.
    pub open spec fn elements(self) -> Seq<Asteroid> {
        Seq::new(self.bodies.len(), |i: int| self.bodies[i].elements)
    }

    /// The cached trigonometry alone, in insertion order.
    pub open spec fn trigs(self) -> Seq<AsteroidTrig> {
        Seq::new(self.bodies.len(), |i: int| self.bodies[i].trig)
    }

    /// Every record's trigonometry is an outcome of `sin_cos` on that
    /// record's own orientation angles.
    pub open spec fn cache_derived<SC: Fn(Scalar) -> (Scalar, Scalar)>(self, sin_cos: SC) -> bool {
        forall|i: int|
            0 <= i < self.bodies.len() ==> (#[trigger] self.bodies[i]).trig.derived_from(
                sin_cos,
                self.bodies[i].elements,
            )
    }

    /// The model with one more body at the end, at the origin.
    pub open spec fn with_body(self, elements: Asteroid, trig: AsteroidTrig) -> SetModel {
        SetModel {
            epoch: self.epoch,
            bodies: self.bodies.push(
                BodyRecord { elements, trig, position: Vector3::origin() },
            ),
        }
    }

    /// The model whose positions are those of `outcomes`, index by index,
    /// and which is otherwise unchanged.
    pub open spec fn with_positions(self, outcomes: Seq<Placement>) -> SetModel {
        SetModel {
            epoch: self.epoch,
            bodies: Seq::new(
                self.bodies.len(),
                |i: int|
                    BodyRecord {
                        elements: self.bodies[i].elements,
                        trig: self.bodies[i].trig,
                        position: outcomes[i].position,
                    },
            ),
        }
    }

    /// `outcomes` holds, index by index, a placement of each body at time
    /// `t`, each obtained from that body's own record and the shared epoch.
    pub open spec fn placed_by<SC, MM, MA, GA, GB, NS, PL, RO>(
        self,
        numerics: Numerics<SC, MM, MA, GA, GB, NS, PL, RO>,
        t: Scalar,
        outcomes: Seq<Placement>,
    ) -> bool where
        SC: Fn(Scalar) -> (Scalar, Scalar),
        MM: Fn(Scalar) -> Scalar,
        MA: Fn(Scalar, Scalar, Scalar, Scalar) -> Scalar,
        GA: Fn(Scalar, Scalar) -> Scalar,
        GB: Fn(Scalar, Scalar) -> Scalar,
        NS: Fn(Scalar, Scalar, Scalar) -> NewtonStep,
        PL: Fn(Scalar, Scalar, Scalar) -> (Scalar, Scalar),
        RO: Fn(AsteroidTrig, Scalar, Scalar) -> Vector3,
     {
        &&& outcomes.len() == self.bodies.len()
        &&& forall|i: int|
            0 <= i < self.bodies.len() ==> numerics.located(
                self.bodies[i].elements,
                self.bodies[i].trig,
                self.epoch,
                t,
                #[trigger] outcomes[i],
            )
    }

    /// `after` is an outcome of recomputing every position of `self` for
    /// time `t`, with `stalled` solves that ran out of iterations.
    pub open spec fn recomputed<SC, MM, MA, GA, GB, NS, PL, RO>(
        self,
        numerics: Numerics<SC, MM, MA, GA, GB, NS, PL, RO>,
        t: Scalar,
        after: SetModel,
        stalled: nat,
    ) -> bool where
        SC: Fn(Scalar) -> (Scalar, Scalar),
        MM: Fn(Scalar) -> Scalar,
        MA: Fn(Scalar, Scalar, Scalar, Scalar) -> Scalar,
        GA: Fn(Scalar, Scalar) -> Scalar,
        GB: Fn(Scalar, Scalar) -> Scalar,
        NS: Fn(Scalar, Scalar, Scalar) -> NewtonStep,
        PL: Fn(Scalar, Scalar, Scalar) -> (Scalar, Scalar),
        RO: Fn(AsteroidTrig, Scalar, Scalar) -> Vector3,
     {
        exists|outcomes: Seq<Placement>|
            {
                &&& #[trigger] self.placed_by(numerics, t, outcomes)
                &&& after == self.with_positions(outcomes)
                &&& stalled == stalled_count(outcomes)
            }
    }

    /// Placements that bear out `recomputed`.
    pub open spec fn recomputed_witness<SC, MM, MA, GA, GB, NS, PL, RO>(
        self,
        numerics: Numerics<SC, MM, MA, GA, GB, NS, PL, RO>,
        t: Scalar,
        after: SetModel,
        stalled: nat,
    ) -> Seq<Placement> where
        SC: Fn(Scalar) -> (Scalar, Scalar),
        MM: Fn(Scalar) -> Scalar,
        MA: Fn(Scalar, Scalar, Scalar, Scalar) -> Scalar,
        GA: Fn(Scalar, Scalar) -> Scalar,
        GB: Fn(Scalar, Scalar) -> Scalar,
        NS: Fn(Scalar, Scalar, Scalar) -> NewtonStep,
        PL: Fn(Scalar, Scalar, Scalar) -> (Scalar, Scalar),
        RO: Fn(AsteroidTrig, Scalar, Scalar) -> Vector3,
     {
        choose|outcomes: Seq<Placement>|
            {
                &&& #[trigger] self.placed_by(numerics, t, outcomes)
                &&& after == self.with_positions(outcomes)
                &&& stalled == stalled_count(outcomes)
            }
    }
}

/// Size in bytes of the largest element among the three arrays. An array
/// cannot be allocated with more than `isize::MAX` bytes.
pub const LARGEST_RECORD_BYTES: usize = 24;

/// A batch of bodies with a shared epoch, bound to the arithmetic that
/// propagates them.
pub struct AsteroidSet<SC, MM, MA, GA, GB, NS, PL, RO> {
    numerics: Numerics<SC, MM, MA, GA, GB, NS, PL, RO>,
    epoch: Scalar,
    asteroids: Vec<Asteroid>,
    locations: Vec<Vector3>,
    asteroids_trig: Vec<AsteroidTrig>,
}

impl<SC, MM, MA, GA, GB, NS, PL, RO> View for AsteroidSet<SC, MM, MA, GA, GB, NS, PL, RO> {
    type V = SetModel;

    closed spec fn view(&self) -> SetModel {
        SetModel {
            epoch: self.epoch,
            bodies: Seq::new(
                self.asteroids@.len(),
                |i: int|
                    BodyRecord {
                        elements: self.asteroids@[i],
                        trig: self.asteroids_trig@[i],
                        position: self.locations@[i],
                    },
            ),
        }
    }
}

impl<SC, MM, MA, GA, GB, NS, PL, RO> AsteroidSet<SC, MM, MA, GA, GB, NS, PL, RO> where
    SC: Fn(Scalar) -> (Scalar, Scalar),
    MM: Fn(Scalar) -> Scalar,
    MA: Fn(Scalar, Scalar, Scalar, Scalar) -> Scalar,
    GA: Fn(Scalar, Scalar) -> Scalar,
    GB: Fn(Scalar, Scalar) -> Scalar,
    NS: Fn(Scalar, Scalar, Scalar) -> NewtonStep,
    PL: Fn(Scalar, Scalar, Scalar) -> (Scalar, Scalar),
    RO: Fn(AsteroidTrig, Scalar, Scalar) -> Vector3,
 {
    /// The arithmetic the set was built with.
    pub closed spec fn backend(&self) -> Numerics<SC, MM, MA, GA, GB, NS, PL, RO> {
        self.numerics
    }

    /// The three arrays have one length.
    pub closed spec fn aligned(&self) -> bool {
        &&& self.locations@.len() == self.asteroids@.len()
        &&& self.asteroids_trig@.len() == self.asteroids@.len()
    }

    /// The set is well formed: its arrays are aligned, its arithmetic is
    /// total, and every cached trigonometry was derived from the elements
    /// at the same index.
    pub open spec fn wf(&self) -> bool {
        &&& self.aligned()
        &&& self.backend().total()
        &&& self@.cache_derived(self.backend().sin_cos)
    }

    /// An empty set with its epoch at zero.
    pub fn new(numerics: Numerics<SC, MM, MA, GA, GB, NS, PL, RO>) -> (set: Self)
        requires
            numerics.total(),
        ensures
            set.wf(),
            set.backend() == numerics,
            set@ == (SetModel { epoch: ZERO, bodies: Seq::empty() }),
    {
        let set = AsteroidSet {
            numerics,
            epoch: ZERO,
            asteroids: Vec::new(),
            locations: Vec::new(),
            asteroids_trig: Vec::new(),
        };
        assert(set@.bodies =~= Seq::empty());
        set
    }

    /// An empty set with its epoch at zero and room for `capacity` bodies
    /// before its arrays have to grow. The capacity is a hint: it changes
    /// nothing that the set stands for.
    pub fn with_capacity(capacity: usize, numerics: Numerics<SC, MM, MA, GA, GB, NS, PL, RO>) -> (set:
        Self)
        requires
            numerics.total(),
            capacity * LARGEST_RECORD_BYTES <= isize::MAX,
        ensures
            set.wf(),
            set.backend() == numerics,
            set@ == (SetModel { epoch: ZERO, bodies: Seq::empty() }),
    {
        let set = AsteroidSet {
            numerics,
            epoch: ZERO,
            asteroids: Vec::with_capacity(capacity),
            locations: Vec::with_capacity(capacity),
            asteroids_trig: Vec::with_capacity(capacity),
        };
        assert(set@.bodies =~= Seq::empty());
        set
    }

    /// Number of bodies in the set.
    pub fn length(&self) -> (n: usize)
        ensures
            n == self@.bodies.len(),
    {
        self.asteroids.len()
    }

    /// Sets the epoch from which every body's mean anomaly is propagated.
    pub fn set_epoch(&mut self, epoch: Scalar)
        ensures
            final(self)@ == (SetModel { epoch, bodies: old(self)@.bodies }),
            final(self).backend() == old(self).backend(),
            final(self).wf() == old(self).wf(),
    {
        self.epoch = epoch;
        proof {
            assert(self@.bodies == old(self)@.bodies);
            assert(self.aligned() == old(self).aligned());
        }
    }

    /// Appends a body. Its trigonometry is evaluated here, once, and its
    /// position starts at the origin.
    pub fn push(
        &mut self,
        e: Scalar,
        a: Scalar,
        i: Scalar,
        long_asc: Scalar,
        arg_peri: Scalar,
        mean_anomaly: Scalar,
    )
        requires
            old(self).wf(),
        ensures
            final(self).wf(),
            final(self).backend() == old(self).backend(),
            final(self)@.bodies.len() == old(self)@.bodies.len() + 1,
            final(self)@ == old(self)@.with_body(
                Asteroid { e, a, i, long_asc, arg_peri, mean_anomaly },
                final(self)@.bodies.last().trig,
            ),
            final(self)@.bodies.last().trig.derived_from(
                old(self).backend().sin_cos,
                Asteroid { e, a, i, long_asc, arg_peri, mean_anomaly },
            ),
    {
        let asteroid = Asteroid { e, a, i, long_asc, arg_peri, mean_anomaly };
        let trig = AsteroidTrig::new(&asteroid, &self.numerics.sin_cos);
        self.locations.push(Vector3::new());
        self.asteroids_trig.push(trig);
        self.asteroids.push(asteroid);
        assert(self@.bodies =~= old(self)@.with_body(asteroid, trig).bodies);
    }

    /// Recomputes every position for time `t`, in place, each from its own
    /// body's elements and cached trigonometry. Returns how many solves ran
    /// out of iterations; their bodies hold the best estimate reached.
    pub fn recompute_locations(&mut self, t: Scalar) -> (stalled: usize)
        requires
            old(self).wf(),
        ensures
            final(self).wf(),
            final(self).backend() == old(self).backend(),
            old(self)@.recomputed(old(self).backend(), t, final(self)@, stalled as nat),
    {
        let n = self.asteroids.len();
        let mut stalled: usize = 0;
        let mut idx: usize = 0;
        let ghost mut outcomes: Seq<Placement> = Seq::empty();
        while idx < n
            invariant
                idx <= n,
                n == self.asteroids@.len(),
                self.aligned(),
                self.numerics == old(self).numerics,
                self.numerics.total(),
                self.epoch == old(self).epoch,
                self.asteroids@ == old(self).asteroids@,
                self.asteroids_trig@ == old(self).asteroids_trig@,
                outcomes.len() == idx,
                forall|k: int|
                    0 <= k < idx ==> self.numerics.located(
                        self.asteroids@[k],
                        self.asteroids_trig@[k],
                        self.epoch,
                        t,
                        #[trigger] outcomes[k],
                    ),
                forall|k: int| 0 <= k < idx ==> self.locations@[k] == outcomes[k].position,
                forall|k: int| idx <= k < n ==> self.locations@[k] == old(self).locations@[k],
                stalled == stalled_count(outcomes),
                stalled <= idx,
            decreases n - idx,
        {
            let placement = self.numerics.locate(
                &self.asteroids[idx],
                &self.asteroids_trig[idx],
                self.epoch,
                t,
            );
            self.locations[idx] = placement.position;
            if !placement.converged {
                stalled = stalled + 1;
            }
            proof {
                outcomes.lemma_filter_len_push(|p: Placement| !p.converged, placement);
                outcomes = outcomes.push(placement);
            }
            idx = idx + 1;
        }
        proof {
            assert(old(self)@.placed_by(old(self).backend(), t, outcomes));
            assert(self@.bodies =~= old(self)@.with_positions(outcomes).bodies);
        }
        stalled
    }

    /// The positions, contiguous and in insertion order.
    pub fn locations(&self) -> (out: &[Vector3])
        requires
            self.wf(),
        ensures
            out@ == self@.positions(),
    {
        let out = self.locations.as_slice();
        assert(out@ =~= self@.positions());
        out
    }

    /// The orbital elements, in insertion order.
    pub fn asteroids(&self) -> (out: &[Asteroid])
        ensures
            out@ == self@.elements(),
    {
        let out = self.asteroids.as_slice();
        assert(out@ =~= self@.elements());
        out
    }

    /// The cached trigonometry, in insertion order.
    pub fn asteroids_trig(&self) -> (out: &[AsteroidTrig])
        requires
            self.wf(),
        ensures
            out@ == self@.trigs(),
    {
        let out = self.asteroids_trig.as_slice();
        assert(out@ =~= self@.trigs());
        out
    }

    /// The epoch from which mean anomalies are propagated.
    pub fn epoch(&self) -> (epoch: Scalar)
        ensures
            epoch == self@.epoch,
    {
        self.epoch
    }

    /// The arithmetic the set was built with.
    pub fn numerics(&self) -> (out: &Numerics<SC, MM, MA, GA, GB, NS, PL, RO>)
        ensures
            *out == self.backend(),
    {
        &self.numerics
    }
}

} // verus!
