//! What follows when the arithmetic is deterministic: recomputation is a
//! function of the stored state and the time, and a body's position depends
//! on nothing but its own elements, the epoch and the time.
use crate::asteroid_set::SetModel;
use crate::elements::{AsteroidTrig, Vector3};
use crate::numerics::{Numerics, Placement};
use crate::scalar::Scalar;
use crate::solver::NewtonStep;
use vstd::prelude::*;

verus! {

/// With deterministic arithmetic the placements of a batch at a given time
/// are unique.
pub proof fn lemma_placements_unique<SC, MM, MA, GA, GB, NS, PL, RO>(
    numerics: Numerics<SC, MM, MA, GA, GB, NS, PL, RO>,
    model: SetModel,
    t: Scalar,
    first: Seq<Placement>,
    second: Seq<Placement>,
) where
    SC: Fn(Scalar) -> (Scalar, Scalar),
    MM: Fn(Scalar) -> Scalar,
    MA: Fn(Scalar, Scalar, Scalar, Scalar) -> Scalar,
    GA: Fn(Scalar, Scalar) -> Scalar,
    GB: Fn(Scalar, Scalar) -> Scalar,
    NS: Fn(Scalar, Scalar, Scalar) -> NewtonStep,
    PL: Fn(Scalar, Scalar, Scalar) -> (Scalar, Scalar),
    RO: Fn(AsteroidTrig, Scalar, Scalar) -> Vector3,

    requires
        numerics.deterministic(),
        model.placed_by(numerics, t, first),
        model.placed_by(numerics, t, second),
    ensures
        first == second,
{
    assert forall|i: int| 0 <= i < first.len() implies first[i] == second[i] by {
        numerics.lemma_location_unique(
            model.bodies[i].elements,
            model.bodies[i].trig,
            model.epoch,
            t,
            first[i],
            second[i],
        );
    }
    assert(first =~= second);
}

/// Recomputation is a function of the stored state and the time: two
/// recomputations of the same state for the same time end in the same
/// state and report the same number of stalled solves.
pub proof fn lemma_recompute_is_function<SC, MM, MA, GA, GB, NS, PL, RO>(
    numerics: Numerics<SC, MM, MA, GA, GB, NS, PL, RO>,
    before: SetModel,
    t: Scalar,
    first: SetModel,
    first_stalled: nat,
    second: SetModel,
    second_stalled: nat,
) where
    SC: Fn(Scalar) -> (Scalar, Scalar),
    MM: Fn(Scalar) -> Scalar,
    MA: Fn(Scalar, Scalar, Scalar, Scalar) -> Scalar,
    GA: Fn(Scalar, Scalar) -> Scalar,
    GB: Fn(Scalar, Scalar) -> Scalar,
    NS: Fn(Scalar, Scalar, Scalar) -> NewtonStep,
    PL: Fn(Scalar, Scalar, Scalar) -> (Scalar, Scalar),
    RO: Fn(AsteroidTrig, Scalar, Scalar) -> Vector3,

    requires
        numerics.deterministic(),
        before.recomputed(numerics, t, first, first_stalled),
        before.recomputed(numerics, t, second, second_stalled),
    ensures
        first == second,
        first_stalled == second_stalled,
{
    let p = before.recomputed_witness(numerics, t, first, first_stalled);
    let q = before.recomputed_witness(numerics, t, second, second_stalled);
    lemma_placements_unique(numerics, before, t, p, q);
}

/// Recomputing once more for the same time changes nothing: the positions
/// are overwritten with the values they already hold, and the same number
/// of solves stall.
pub proof fn lemma_recompute_repeatable<SC, MM, MA, GA, GB, NS, PL, RO>(
    numerics: Numerics<SC, MM, MA, GA, GB, NS, PL, RO>,
    before: SetModel,
    t: Scalar,
    once: SetModel,
    once_stalled: nat,
    twice: SetModel,
    twice_stalled: nat,
) where
    SC: Fn(Scalar) -> (Scalar, Scalar),
    MM: Fn(Scalar) -> Scalar,
    MA: Fn(Scalar, Scalar, Scalar, Scalar) -> Scalar,
    GA: Fn(Scalar, Scalar) -> Scalar,
    GB: Fn(Scalar, Scalar) -> Scalar,
    NS: Fn(Scalar, Scalar, Scalar) -> NewtonStep,
    PL: Fn(Scalar, Scalar, Scalar) -> (Scalar, Scalar),
    RO: Fn(AsteroidTrig, Scalar, Scalar) -> Vector3,

    requires
        numerics.deterministic(),
        before.recomputed(numerics, t, once, once_stalled),
        once.recomputed(numerics, t, twice, twice_stalled),
    ensures
        twice == once,
        twice_stalled == once_stalled,
{
    let p = before.recomputed_witness(numerics, t, once, once_stalled);
    let q = once.recomputed_witness(numerics, t, twice, twice_stalled);
    assert(once.placed_by(numerics, t, p));
    lemma_placements_unique(numerics, once, t, p, q);
    assert(twice.bodies =~= once.bodies);
}

/// A body's position depends on its elements, the epoch and the time
/// alone: after recomputation for the same time, two bodies with equal
/// elements, in one set or in two sets with the same epoch, hold equal
/// positions, whatever their indices and whatever else the sets hold.
pub proof fn lemma_equal_elements_equal_positions<SC, MM, MA, GA, GB, NS, PL, RO>(
    numerics: Numerics<SC, MM, MA, GA, GB, NS, PL, RO>,
    t: Scalar,
    a: SetModel,
    a_after: SetModel,
    a_stalled: nat,
    i: int,
    b: SetModel,
    b_after: SetModel,
    b_stalled: nat,
    j: int,
) where
    SC: Fn(Scalar) -> (Scalar, Scalar),
    MM: Fn(Scalar) -> Scalar,
    MA: Fn(Scalar, Scalar, Scalar, Scalar) -> Scalar,
    GA: Fn(Scalar, Scalar) -> Scalar,
    GB: Fn(Scalar, Scalar) -> Scalar,
    NS: Fn(Scalar, Scalar, Scalar) -> NewtonStep,
    PL: Fn(Scalar, Scalar, Scalar) -> (Scalar, Scalar),
    RO: Fn(AsteroidTrig, Scalar, Scalar) -> Vector3,

    requires
        numerics.deterministic(),
        a.cache_derived(numerics.sin_cos),
        b.cache_derived(numerics.sin_cos),
        a.epoch == b.epoch,
        a.recomputed(numerics, t, a_after, a_stalled),
        b.recomputed(numerics, t, b_after, b_stalled),
        0 <= i < a.bodies.len(),
        0 <= j < b.bodies.len(),
        a.bodies[i].elements == b.bodies[j].elements,
    ensures
        i < a_after.bodies.len(),
        j < b_after.bodies.len(),
        a_after.bodies[i].position == b_after.bodies[j].position,
{
    let p = a.recomputed_witness(numerics, t, a_after, a_stalled);
    let q = b.recomputed_witness(numerics, t, b_after, b_stalled);
    let x = a.bodies[i];
    let y = b.bodies[j];
    assert(x.trig.derived_from(numerics.sin_cos, x.elements));
    assert(y.trig.derived_from(numerics.sin_cos, y.elements));
    assert(x.trig == y.trig);
    numerics.lemma_location_unique(x.elements, x.trig, a.epoch, t, p[i], q[j]);
}

/// Insertion order does not matter: if the bodies of `b` are those of `a`
/// rearranged, `b.bodies[k]` having the elements of `a.bodies[order[k]]`,
/// then after recomputation for the same time the positions are rearranged
/// in the same way.
pub proof fn lemma_insertion_order_irrelevant<SC, MM, MA, GA, GB, NS, PL, RO>(
    numerics: Numerics<SC, MM, MA, GA, GB, NS, PL, RO>,
    t: Scalar,
    a: SetModel,
    a_after: SetModel,
    a_stalled: nat,
    b: SetModel,
    b_after: SetModel,
    b_stalled: nat,
    order: Seq<int>,
) where
    SC: Fn(Scalar) -> (Scalar, Scalar),
    MM: Fn(Scalar) -> Scalar,
    MA: Fn(Scalar, Scalar, Scalar, Scalar) -> Scalar,
    GA: Fn(Scalar, Scalar) -> Scalar,
    GB: Fn(Scalar, Scalar) -> Scalar,
    NS: Fn(Scalar, Scalar, Scalar) -> NewtonStep,
    PL: Fn(Scalar, Scalar, Scalar) -> (Scalar, Scalar),
    RO: Fn(AsteroidTrig, Scalar, Scalar) -> Vector3,

    requires
        numerics.deterministic(),
        a.cache_derived(numerics.sin_cos),
        b.cache_derived(numerics.sin_cos),
        a.epoch == b.epoch,
        a.recomputed(numerics, t, a_after, a_stalled),
        b.recomputed(numerics, t, b_after, b_stalled),
        order.len() == b.bodies.len(),
        forall|k: int|
            0 <= k < order.len() ==> 0 <= #[trigger] order[k] < a.bodies.len()
                && b.bodies[k].elements == a.bodies[order[k]].elements,
    ensures
        a_after.bodies.len() == a.bodies.len(),
        b_after.bodies.len() == b.bodies.len(),
        forall|k: int|
            0 <= k < order.len() ==> b_after.bodies[k].position == a_after.bodies[#[trigger] order[k]].position,
{
    let p = a.recomputed_witness(numerics, t, a_after, a_stalled);
    let q = b.recomputed_witness(numerics, t, b_after, b_stalled);
    assert forall|k: int| 0 <= k < order.len() implies b_after.bodies[k].position
        == a_after.bodies[#[trigger] order[k]].position by {
        lemma_equal_elements_equal_positions(
            numerics,
            t,
            a,
            a_after,
            a_stalled,
            order[k],
            b,
            b_after,
            b_stalled,
            k,
        );
    }
}

} // verus!
