use solar_system::{
    Asteroid, AsteroidSet, AsteroidTrig, NewtonStep, Numerics, Scalar, Vector3, ZERO,
};
use std::cell::{Cell, RefCell};

/// The eccentricity for which the stand-in refinement never converges.
const STUBBORN: Scalar = 999;

fn sin_cos(angle: Scalar) -> (Scalar, Scalar) {
    (angle.wrapping_add(1), angle.wrapping_add(2))
}

fn mean_motion(a: Scalar) -> Scalar {
    a.wrapping_mul(2)
}

fn mean_anomaly_at(m0: Scalar, n: Scalar, epoch: Scalar, t: Scalar) -> Scalar {
    m0.wrapping_add(n.wrapping_mul(t.wrapping_sub(epoch)))
}

fn guess_above(m: Scalar, e: Scalar) -> Scalar {
    m.wrapping_add(e)
}

fn guess_below(m: Scalar, e: Scalar) -> Scalar {
    m.wrapping_sub(e)
}

fn step(x: Scalar, _m: Scalar, e: Scalar) -> NewtonStep {
    // A correction of zero settles at once; a correction of one never does.
    let correction = if e == STUBBORN { 0x3f80_0000 } else { 0 };
    NewtonStep { estimate: x.wrapping_add(1), correction }
}

fn plane(a: Scalar, e: Scalar, x: Scalar) -> (Scalar, Scalar) {
    (a.wrapping_add(x), e.wrapping_add(x))
}

fn rotate(trig: AsteroidTrig, x: Scalar, y: Scalar) -> Vector3 {
    Vector3 {
        x: x.wrapping_add(trig.sin_arg_peri),
        y: y.wrapping_add(trig.cos_long_asc),
        z: trig.sin_inc,
    }
}

fn stand_in() -> Numerics<
    impl Fn(Scalar) -> (Scalar, Scalar),
    impl Fn(Scalar) -> Scalar,
    impl Fn(Scalar, Scalar, Scalar, Scalar) -> Scalar,
    impl Fn(Scalar, Scalar) -> Scalar,
    impl Fn(Scalar, Scalar) -> Scalar,
    impl Fn(Scalar, Scalar, Scalar) -> NewtonStep,
    impl Fn(Scalar, Scalar, Scalar) -> (Scalar, Scalar),
    impl Fn(AsteroidTrig, Scalar, Scalar) -> Vector3,
> {
    Numerics {
        sin_cos,
        mean_motion,
        mean_anomaly_at,
        guess_above,
        guess_below,
        step,
        plane,
        rotate,
    }
}

/// What the stand-in arithmetic gives for a body, worked by hand.
fn expected(body: &Asteroid, epoch: Scalar, t: Scalar) -> Vector3 {
    let steps = if body.e == STUBBORN { 100 } else { 1 };
    let mean = body.mean_anomaly + 2 * body.a * (t - epoch);
    let beyond_half_turn = f32::from_bits(mean) > std::f32::consts::PI;
    let start = if beyond_half_turn { mean - body.e } else { mean + body.e };
    let anomaly = start + steps;
    Vector3 {
        x: body.a + anomaly + body.arg_peri + 1,
        y: body.e + anomaly + body.long_asc + 2,
        z: body.i + 1,
    }
}

#[test]
fn new_set_is_empty() {
    let set = AsteroidSet::new(stand_in());
    assert_eq!(set.length(), 0);
    assert_eq!(set.epoch(), ZERO);
    assert!(set.locations().is_empty());
    assert!(set.asteroids().is_empty());
    assert!(set.asteroids_trig().is_empty());
}

#[test]
fn set_with_capacity_is_empty() {
    let mut set = AsteroidSet::with_capacity(64, stand_in());
    assert_eq!(set.length(), 0);
    assert_eq!(set.epoch(), ZERO);
    assert!(set.locations().is_empty());
    set.push(1, 2, 3, 4, 5, 6);
    assert_eq!(set.length(), 1);
}

#[test]
fn zero_capacity_is_accepted() {
    let mut set = AsteroidSet::with_capacity(0, stand_in());
    set.push(1, 2, 3, 4, 5, 6);
    set.push(1, 2, 3, 4, 5, 6);
    assert_eq!(set.length(), 2);
}

#[test]
fn push_appends_a_body_at_the_origin() {
    let mut set = AsteroidSet::new(stand_in());
    set.push(1, 2, 3, 4, 5, 6);
    assert_eq!(set.length(), 1);
    assert_eq!(
        set.asteroids()[0],
        Asteroid { e: 1, a: 2, i: 3, long_asc: 4, arg_peri: 5, mean_anomaly: 6 }
    );
    assert_eq!(set.locations()[0], Vector3 { x: 0, y: 0, z: 0 });
    assert_eq!(set.locations()[0], Vector3::new());
}

#[test]
fn push_caches_the_trigonometry_of_each_angle() {
    let mut set = AsteroidSet::new(stand_in());
    set.push(1, 2, 30, 40, 50, 6);
    assert_eq!(
        set.asteroids_trig()[0],
        AsteroidTrig {
            sin_arg_peri: 51,
            cos_arg_peri: 52,
            sin_long_asc: 41,
            cos_long_asc: 42,
            sin_inc: 31,
            cos_inc: 32,
        }
    );
}

#[test]
fn trigonometry_is_evaluated_at_insertion_and_never_again() {
    let angles = RefCell::new(Vec::new());
    let logged = |angle: Scalar| {
        angles.borrow_mut().push(angle);
        sin_cos(angle)
    };
    let numerics = Numerics {
        sin_cos: logged,
        mean_motion,
        mean_anomaly_at,
        guess_above,
        guess_below,
        step,
        plane,
        rotate,
    };
    let mut set = AsteroidSet::new(numerics);
    set.push(1, 2, 30, 40, 50, 6);
    assert_eq!(*angles.borrow(), vec![50, 40, 30]);
    set.push(1, 2, 31, 41, 51, 6);
    assert_eq!(angles.borrow().len(), 6);
    set.recompute_locations(10);
    set.set_epoch(3);
    set.recompute_locations(20);
    assert_eq!(angles.borrow().len(), 6);
}

#[test]
fn bodies_keep_their_insertion_order() {
    let mut set = AsteroidSet::new(stand_in());
    for k in 0..10 {
        set.push(k, k + 100, k + 200, k + 300, k + 400, k + 500);
    }
    assert_eq!(set.length(), 10);
    for k in 0..10u32 {
        let body = set.asteroids()[k as usize];
        assert_eq!(body.e, k);
        assert_eq!(body.a, k + 100);
        assert_eq!(body.i, k + 200);
        assert_eq!(body.long_asc, k + 300);
        assert_eq!(body.arg_peri, k + 400);
        assert_eq!(body.mean_anomaly, k + 500);
        assert_eq!(set.asteroids_trig()[k as usize].sin_inc, k + 201);
    }
}

#[test]
fn recompute_chains_the_stages_in_order() {
    let mut set = AsteroidSet::new(stand_in());
    set.push(1, 2, 30, 40, 50, 6);
    let stalled = set.recompute_locations(10);
    assert_eq!(stalled, 0);
    // n = 4, M = 6 + 4 * 10 = 46, E0 = 47, E = 48, plane = (50, 49).
    assert_eq!(set.locations()[0], Vector3 { x: 50 + 51, y: 49 + 42, z: 31 });
}

#[test]
fn recompute_places_every_body_from_its_own_record() {
    let mut set = AsteroidSet::new(stand_in());
    for k in 0..25 {
        set.push(k % 7, 3 * k + 1, k + 200, 5 * k + 300, k + 400, 11 * k + 500);
    }
    set.set_epoch(4);
    let stalled = set.recompute_locations(9);
    assert_eq!(stalled, 0);
    assert_eq!(set.length(), 25);
    assert_eq!(set.locations().len(), 25);
    for k in 0..25 {
        let body = set.asteroids()[k];
        assert_eq!(set.locations()[k], expected(&body, 4, 9));
    }
}

#[test]
fn recompute_leaves_elements_and_cache_alone() {
    let mut set = AsteroidSet::new(stand_in());
    for k in 0..5 {
        set.push(k, k + 1, k + 2, k + 3, k + 4, k + 5);
    }
    let elements = set.asteroids().to_vec();
    let cache = set.asteroids_trig().to_vec();
    set.recompute_locations(77);
    assert_eq!(set.asteroids(), &elements[..]);
    assert_eq!(set.asteroids_trig(), &cache[..]);
    assert_eq!(set.epoch(), ZERO);
}

#[test]
fn recompute_counts_the_solves_that_stall() {
    let mut set = AsteroidSet::new(stand_in());
    set.push(1, 2, 3, 4, 5, 6);
    set.push(STUBBORN, 2, 3, 4, 5, 6);
    set.push(2, 2, 3, 4, 5, 6);
    set.push(STUBBORN, 9, 3, 4, 5, 6);
    let stalled = set.recompute_locations(1);
    assert_eq!(stalled, 2);
    for k in 0..4 {
        let body = set.asteroids()[k];
        assert_eq!(set.locations()[k], expected(&body, 0, 1));
    }
}

#[test]
fn a_stalled_solve_does_not_stop_the_batch() {
    let mut set = AsteroidSet::new(stand_in());
    set.push(STUBBORN, 2, 3, 4, 5, 6);
    set.push(1, 2, 3, 4, 5, 6);
    let stalled = set.recompute_locations(1);
    assert_eq!(stalled, 1);
    let last = set.asteroids()[1];
    assert_eq!(set.locations()[1], expected(&last, 0, 1));
}

#[test]
fn a_body_beyond_half_a_turn_starts_below_its_mean_anomaly() {
    let four = 4.0f32.to_bits();
    let mut set = AsteroidSet::new(stand_in());
    set.push(7, 2, 30, 40, 50, four);
    set.push(7, 2, 30, 40, 50, 6);
    set.recompute_locations(10);
    // n = 4, M = four + 40, E0 = M - 7, E = E0 + 1, plane = (2 + E, 7 + E).
    let anomaly = four + 40 - 7 + 1;
    assert_eq!(set.locations()[0], Vector3 { x: 2 + anomaly + 51, y: 7 + anomaly + 42, z: 31 });
    // M = 46, E0 = M + 7.
    assert_eq!(set.locations()[1], Vector3 { x: 2 + 54 + 51, y: 7 + 54 + 42, z: 31 });
    for k in 0..2 {
        let body = set.asteroids()[k];
        assert_eq!(set.locations()[k], expected(&body, 0, 10));
    }
}

#[test]
fn recompute_on_an_empty_set_does_nothing() {
    let mut set = AsteroidSet::new(stand_in());
    assert_eq!(set.recompute_locations(5), 0);
    assert_eq!(set.length(), 0);
    assert!(set.locations().is_empty());
}

#[test]
fn set_epoch_moves_the_reference_for_every_body() {
    let mut set = AsteroidSet::new(stand_in());
    set.push(1, 2, 3, 4, 5, 6);
    set.push(2, 3, 4, 5, 6, 7);
    set.set_epoch(10);
    assert_eq!(set.epoch(), 10);
    set.recompute_locations(10);
    for k in 0..2 {
        let body = set.asteroids()[k];
        assert_eq!(set.locations()[k], expected(&body, 10, 10));
    }
    set.set_epoch(2);
    set.recompute_locations(10);
    for k in 0..2 {
        let body = set.asteroids()[k];
        assert_eq!(set.locations()[k], expected(&body, 2, 10));
    }
}

#[test]
fn set_epoch_alone_moves_nothing() {
    let mut set = AsteroidSet::new(stand_in());
    set.push(1, 2, 3, 4, 5, 6);
    set.recompute_locations(10);
    let before = set.locations().to_vec();
    set.set_epoch(3);
    assert_eq!(set.locations(), &before[..]);
    assert_eq!(set.length(), 1);
}

#[test]
fn a_later_push_starts_at_the_origin_and_moves_nothing() {
    let mut set = AsteroidSet::new(stand_in());
    set.push(1, 2, 3, 4, 5, 6);
    set.recompute_locations(10);
    let first = set.locations()[0];
    set.push(7, 8, 9, 10, 11, 12);
    assert_eq!(set.locations()[0], first);
    assert_eq!(set.locations()[1], Vector3::new());
}

#[test]
fn the_set_hands_back_its_arithmetic() {
    let set = AsteroidSet::new(stand_in());
    assert_eq!((set.numerics().sin_cos)(9), (10, 11));
    assert_eq!((set.numerics().mean_motion)(9), 18);
}

#[test]
fn locate_runs_one_body_through_the_pipeline() {
    let numerics = stand_in();
    let body = Asteroid { e: 1, a: 2, i: 30, long_asc: 40, arg_peri: 50, mean_anomaly: 6 };
    let trig = AsteroidTrig::new(&body, &numerics.sin_cos);
    let placement = numerics.locate(&body, &trig, 0, 10);
    assert!(placement.converged);
    assert_eq!(placement.position, Vector3 { x: 101, y: 91, z: 31 });
    let stubborn = Asteroid { e: STUBBORN, ..body };
    let stalled = numerics.locate(&stubborn, &trig, 0, 10);
    assert!(!stalled.converged);
    assert_eq!(stalled.position, expected(&stubborn, 0, 10));
}

#[test]
fn solver_sees_the_propagated_anomaly_and_the_eccentricity() {
    let seen = Cell::new((0u32, 0u32));
    let spy = |m: Scalar, e: Scalar| {
        seen.set((m, e));
        guess_above(m, e)
    };
    let numerics = Numerics {
        sin_cos,
        mean_motion,
        mean_anomaly_at,
        guess_above: spy,
        guess_below,
        step,
        plane,
        rotate,
    };
    let mut set = AsteroidSet::new(numerics);
    set.push(1, 2, 3, 4, 5, 6);
    set.set_epoch(1);
    set.recompute_locations(4);
    assert_eq!(seen.get(), (6 + 4 * 3, 1));
}
