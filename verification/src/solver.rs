//! Newton-Raphson iteration for Kepler's equation `E - e sin E = M`.
//!
//! The iteration is driven here, and here it is decided where it starts and
//! when it stops. The real arithmetic it needs, two initial guesses and one
//! refinement step, comes as operations of the caller.
use crate::scalar::{
    exceeds, is_finite, is_greater, magnitude_at_most, magnitude_bits, scaled_magnitude, Scalar,
    HIDDEN_BIT, SIGN_BIT,
};
use vstd::arithmetic::power2::{lemma2_to64, lemma2_to64_rest, pow2};
use vstd::prelude::*;

verus! {

/// The most refinement steps a single solve may take.
pub const MAX_ITERATIONS: u32 = 100;

/// The largest correction, in absolute value, at which the iteration counts
/// as converged: the single nearest to 1e-4. Single precision cannot
/// resolve the eccentric anomaly much further over a whole turn, so a
/// tighter value would leave solves that never settle.
pub const KEPLER_TOLERANCE: Scalar = 0x38d1_b717;

/// Half a turn in radians: the single nearest to pi. A mean anomaly beyond
/// it lies on the half of the orbit that leads back to periapsis, where the
/// eccentric anomaly is below the mean anomaly.
pub const HALF_TURN: Scalar = 0x4049_0fdb;

/// What one refinement step hands back.
#[derive(Clone, Copy, Debug, PartialEq, Eq, Structural)]
pub struct NewtonStep {
    /// The estimate of the eccentric anomaly after the step.
    pub estimate: Scalar,
    /// The correction that the step subtracted from the estimate before.
    pub correction: Scalar,
}

/// The outcome of a solve.
#[derive(Clone, Copy, Debug, PartialEq, Eq, Structural)]
pub struct Solution {
    /// The last estimate of the eccentric anomaly.
    pub eccentric_anomaly: Scalar,
    /// How many refinement steps were taken.
    pub iterations: u32,
    /// Whether the last correction was within tolerance. When `false` the
    /// iteration budget ran out and the estimate is the best available.
    pub converged: bool,
}

/// The correction is a finite number of absolute value at most
/// `KEPLER_TOLERANCE`.
pub open spec fn within_tolerance(correction: Scalar) -> bool {
    is_finite(correction) && scaled_magnitude(correction) <= scaled_magnitude(KEPLER_TOLERANCE)
}

/// The tolerance is 13743895 units of two to the power -37, and no single
/// is nearer to one ten-thousandth: the two differ by less than half that
/// unit.
pub proof fn lemma_tolerance_value()
    ensures
        is_finite(KEPLER_TOLERANCE),
        scaled_magnitude(KEPLER_TOLERANCE) == 13743895 * pow2(112),
        2 * (pow2(37) - 13743895 * 10000) < 10000,
        2 * (13743895 * 10000 - pow2(37)) < 10000,
{
    lemma2_to64();
    lemma2_to64_rest();
    assert(magnitude_bits(KEPLER_TOLERANCE) / HIDDEN_BIT == 113);
    assert(magnitude_bits(KEPLER_TOLERANCE) % HIDDEN_BIT == 5355287);
}

/// Half a turn is 13176795 units of two to the power -22, which lies
/// between 3.1415926 and 3.1415928.
pub proof fn lemma_half_turn_value()
    ensures
        is_finite(HALF_TURN),
        HALF_TURN < SIGN_BIT,
        scaled_magnitude(HALF_TURN) == 13176795 * pow2(127),
        31415926 * pow2(22) < 13176795 * 10000000,
        13176795 * 10000000 < 31415928 * pow2(22),
{
    lemma2_to64();
    assert(magnitude_bits(HALF_TURN) / HIDDEN_BIT == 128);
    assert(magnitude_bits(HALF_TURN) % HIDDEN_BIT == 4788187);
}

/// `start` is an initial estimate for the given mean anomaly: an outcome
/// of `guess_below` where the mean anomaly is a number greater than
/// `HALF_TURN`, and of `guess_above` everywhere else.
pub open spec fn started<GA, GB>(
    guess_above: GA,
    guess_below: GB,
    mean_anomaly: Scalar,
    eccentricity: Scalar,
    start: Scalar,
) -> bool where GA: Fn(Scalar, Scalar) -> Scalar, GB: Fn(Scalar, Scalar) -> Scalar {
    if exceeds(mean_anomaly, HALF_TURN) {
        call_ensures(guess_below, (mean_anomaly, eccentricity), start)
    } else {
        call_ensures(guess_above, (mean_anomaly, eccentricity), start)
    }
}

/// The estimate that step `k` of `trace` starts from.
pub open spec fn estimate_before(start: Scalar, trace: Seq<NewtonStep>, k: int) -> Scalar {
    if k == 0 {
        start
    } else {
        trace[k - 1].estimate
    }
}

/// `trace` is a complete run of the iteration from `start`: every entry is
/// an outcome of `step` on the estimate before it, no correction but the
/// last is within tolerance, and the run ends on such a correction or when
/// the budget of `MAX_ITERATIONS` steps is spent.
pub open spec fn newton_run<NS: Fn(Scalar, Scalar, Scalar) -> NewtonStep>(
    step: NS,
    mean_anomaly: Scalar,
    eccentricity: Scalar,
    start: Scalar,
    trace: Seq<NewtonStep>,
) -> bool {
    &&& 1 <= trace.len() <= MAX_ITERATIONS
    &&& forall|k: int|
        0 <= k < trace.len() ==> call_ensures(
            step,
            (estimate_before(start, trace, k), mean_anomaly, eccentricity),
            #[trigger] trace[k],
        )
    &&& forall|k: int|
        0 <= k < trace.len() - 1 ==> !within_tolerance((#[trigger] trace[k]).correction)
    &&& within_tolerance(trace.last().correction) || trace.len() == MAX_ITERATIONS
}

/// The solution that a complete run stands for.
pub open spec fn solution_of(trace: Seq<NewtonStep>) -> Solution {
    Solution {
        eccentric_anomaly: trace.last().estimate,
        iterations: trace.len() as u32,
        converged: within_tolerance(trace.last().correction),
    }
}

/// `start` and `trace` show how `sol` came about.
pub open spec fn solved_by<GA, GB, NS>(
    guess_above: GA,
    guess_below: GB,
    step: NS,
    mean_anomaly: Scalar,
    eccentricity: Scalar,
    sol: Solution,
    start: Scalar,
    trace: Seq<NewtonStep>,
) -> bool where
    GA: Fn(Scalar, Scalar) -> Scalar,
    GB: Fn(Scalar, Scalar) -> Scalar,
    NS: Fn(Scalar, Scalar, Scalar) -> NewtonStep,
 {
    &&& started(guess_above, guess_below, mean_anomaly, eccentricity, start)
    &&& newton_run(step, mean_anomaly, eccentricity, start, trace)
    &&& sol == solution_of(trace)
}

/// `sol` is an outcome of solving for the given mean anomaly and
/// eccentricity with the given operations.
pub open spec fn solved<GA, GB, NS>(
    guess_above: GA,
    guess_below: GB,
    step: NS,
    mean_anomaly: Scalar,
    eccentricity: Scalar,
    sol: Solution,
) -> bool where
    GA: Fn(Scalar, Scalar) -> Scalar,
    GB: Fn(Scalar, Scalar) -> Scalar,
    NS: Fn(Scalar, Scalar, Scalar) -> NewtonStep,
 {
    exists|start: Scalar, trace: Seq<NewtonStep>| #[trigger]
        solved_by(
            guess_above,
            guess_below,
            step,
            mean_anomaly,
            eccentricity,
            sol,
            start,
            trace,
        )
}

/// Solves Kepler's equation for the eccentric anomaly.
///
/// The initial estimate is `guess_below(mean_anomaly, eccentricity)` for a
/// mean anomaly beyond half a turn and `guess_above(mean_anomaly,
/// eccentricity)` otherwise. From there `step` is applied until a
/// correction is within tolerance or `MAX_ITERATIONS` steps have been
/// taken. At least one step is taken. Running out of steps is not a
/// failure: the last estimate is returned and flagged as not converged. A
/// correction that is not a number is not within tolerance.
pub fn solve_keplers_equation<GA, GB, NS>(
    mean_anomaly: Scalar,
    eccentricity: Scalar,
    guess_above: &GA,
    guess_below: &GB,
    step: &NS,
) -> (sol: Solution) where
    GA: Fn(Scalar, Scalar) -> Scalar,
    GB: Fn(Scalar, Scalar) -> Scalar,
    NS: Fn(Scalar, Scalar, Scalar) -> NewtonStep,

    requires
        call_requires(*guess_above, (mean_anomaly, eccentricity)),
        call_requires(*guess_below, (mean_anomaly, eccentricity)),
        forall|x: Scalar| call_requires(*step, (x, mean_anomaly, eccentricity)),
    ensures
        solved(*guess_above, *guess_below, *step, mean_anomaly, eccentricity, sol),
        1 <= sol.iterations <= MAX_ITERATIONS,
        !sol.converged ==> sol.iterations == MAX_ITERATIONS,
{
    let start: Scalar = if is_greater(mean_anomaly, HALF_TURN) {
        guess_below(mean_anomaly, eccentricity)
    } else {
        guess_above(mean_anomaly, eccentricity)
    };
    let mut estimate: Scalar = start;
    let mut converged = false;
    let mut iterations: u32 = 0;
    let ghost mut trace: Seq<NewtonStep> = Seq::empty();
    while !converged && iterations < MAX_ITERATIONS
        invariant
            forall|x: Scalar| call_requires(*step, (x, mean_anomaly, eccentricity)),
            iterations <= MAX_ITERATIONS,
            trace.len() == iterations,
            estimate == estimate_before(start, trace, trace.len() as int),
            converged <==> iterations > 0 && within_tolerance(trace.last().correction),
            forall|k: int|
                0 <= k < trace.len() ==> call_ensures(
                    *step,
                    (estimate_before(start, trace, k), mean_anomaly, eccentricity),
                    #[trigger] trace[k],
                ),
            forall|k: int|
                0 <= k < trace.len() - 1 ==> !within_tolerance((#[trigger] trace[k]).correction),
        decreases MAX_ITERATIONS - iterations,
    {
        let next = step(estimate, mean_anomaly, eccentricity);
        proof {
            trace = trace.push(next);
        }
        estimate = next.estimate;
        converged = magnitude_at_most(next.correction, KEPLER_TOLERANCE);
        iterations = iterations + 1;
    }
    let sol = Solution { eccentric_anomaly: estimate, iterations, converged };
    proof {
        assert(solved_by(
            *guess_above,
            *guess_below,
            *step,
            mean_anomaly,
            eccentricity,
            sol,
            start,
            trace,
        ));
    }
    sol
}

/// Every outcome of `guess` on given arguments is the same value.
pub open spec fn guess_is_function<GU: Fn(Scalar, Scalar) -> Scalar>(guess: GU) -> bool {
    forall|m: Scalar, e: Scalar, a: Scalar, b: Scalar|
        #[trigger] call_ensures(guess, (m, e), a) && #[trigger] call_ensures(guess, (m, e), b)
            ==> a == b
}

/// Every outcome of `step` on given arguments is the same value.
pub open spec fn step_is_function<NS: Fn(Scalar, Scalar, Scalar) -> NewtonStep>(step: NS) -> bool {
    forall|x: Scalar, m: Scalar, e: Scalar, a: NewtonStep, b: NewtonStep|
        #[trigger] call_ensures(step, (x, m, e), a) && #[trigger] call_ensures(step, (x, m, e), b)
            ==> a == b
}

/// Where the first refinement of every initial estimate corrects by no more
/// than the tolerance, a solve ends after that one step, on the estimate
/// that the step gave.
pub proof fn lemma_first_step_decides<GA, GB, NS>(
    guess_above: GA,
    guess_below: GB,
    step: NS,
    mean_anomaly: Scalar,
    eccentricity: Scalar,
    sol: Solution,
) where
    GA: Fn(Scalar, Scalar) -> Scalar,
    GB: Fn(Scalar, Scalar) -> Scalar,
    NS: Fn(Scalar, Scalar, Scalar) -> NewtonStep,

    requires
        solved(guess_above, guess_below, step, mean_anomaly, eccentricity, sol),
        forall|start: Scalar, first: NewtonStep|
            started(guess_above, guess_below, mean_anomaly, eccentricity, start)
                && #[trigger] call_ensures(step, (start, mean_anomaly, eccentricity), first)
                ==> within_tolerance(first.correction),
    ensures
        sol.iterations == 1,
        sol.converged,
        exists|start: Scalar, first: NewtonStep|
            {
                &&& started(guess_above, guess_below, mean_anomaly, eccentricity, start)
                &&& #[trigger] call_ensures(step, (start, mean_anomaly, eccentricity), first)
                &&& first.estimate == sol.eccentric_anomaly
            },
{
    let (start, trace) = choose|start: Scalar, trace: Seq<NewtonStep>| #[trigger]
        solved_by(
            guess_above,
            guess_below,
            step,
            mean_anomaly,
            eccentricity,
            sol,
            start,
            trace,
        );
    assert(call_ensures(step, (start, mean_anomaly, eccentricity), trace[0]));
}

/// Two runs from the same start agree on every step that both take.
proof fn lemma_runs_agree<NS: Fn(Scalar, Scalar, Scalar) -> NewtonStep>(
    step: NS,
    mean_anomaly: Scalar,
    eccentricity: Scalar,
    start: Scalar,
    first: Seq<NewtonStep>,
    second: Seq<NewtonStep>,
    k: int,
)
    requires
        step_is_function(step),
        newton_run(step, mean_anomaly, eccentricity, start, first),
        newton_run(step, mean_anomaly, eccentricity, start, second),
        0 <= k < first.len(),
        k < second.len(),
    ensures
        first[k] == second[k],
    decreases k,
{
    if k > 0 {
        lemma_runs_agree(step, mean_anomaly, eccentricity, start, first, second, k - 1);
    }
    assert(estimate_before(start, first, k) == estimate_before(start, second, k));
}

/// With a refinement step that is a function, the run from a given start
/// is unique.
pub proof fn lemma_run_unique<NS: Fn(Scalar, Scalar, Scalar) -> NewtonStep>(
    step: NS,
    mean_anomaly: Scalar,
    eccentricity: Scalar,
    start: Scalar,
    first: Seq<NewtonStep>,
    second: Seq<NewtonStep>,
)
    requires
        step_is_function(step),
        newton_run(step, mean_anomaly, eccentricity, start, first),
        newton_run(step, mean_anomaly, eccentricity, start, second),
    ensures
        first == second,
{
    if first.len() < second.len() {
        lemma_runs_agree(step, mean_anomaly, eccentricity, start, first, second, first.len() - 1);
        assert(!within_tolerance(second[first.len() - 1].correction));
    } else if second.len() < first.len() {
        lemma_runs_agree(step, mean_anomaly, eccentricity, start, first, second, second.len() - 1);
        assert(!within_tolerance(first[second.len() - 1].correction));
    }
    assert forall|k: int| 0 <= k < first.len() implies first[k] == second[k] by {
        lemma_runs_agree(step, mean_anomaly, eccentricity, start, first, second, k);
    }
    assert(first =~= second);
}

/// With operations that are functions, the solver is one too: a solve has
/// exactly one outcome.
pub proof fn lemma_solution_unique<GA, GB, NS>(
    guess_above: GA,
    guess_below: GB,
    step: NS,
    mean_anomaly: Scalar,
    eccentricity: Scalar,
    first: Solution,
    second: Solution,
) where
    GA: Fn(Scalar, Scalar) -> Scalar,
    GB: Fn(Scalar, Scalar) -> Scalar,
    NS: Fn(Scalar, Scalar, Scalar) -> NewtonStep,

    requires
        guess_is_function(guess_above),
        guess_is_function(guess_below),
        step_is_function(step),
        solved(guess_above, guess_below, step, mean_anomaly, eccentricity, first),
        solved(guess_above, guess_below, step, mean_anomaly, eccentricity, second),
    ensures
        first == second,
{
    let (start1, trace1) = choose|start: Scalar, trace: Seq<NewtonStep>| #[trigger]
        solved_by(
            guess_above,
            guess_below,
            step,
            mean_anomaly,
            eccentricity,
            first,
            start,
            trace,
        );
    let (start2, trace2) = choose|start: Scalar, trace: Seq<NewtonStep>| #[trigger]
        solved_by(
            guess_above,
            guess_below,
            step,
            mean_anomaly,
            eccentricity,
            second,
            start,
            trace,
        );
    assert(start1 == start2);
    lemma_run_unique(step, mean_anomaly, eccentricity, start1, trace1, trace2);
}

} // verus!
