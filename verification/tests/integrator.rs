use nbody_sim::body::Mass;
use nbody_sim::integrator::{step, time_step, total_pull, TIME_STEP_BITS};
use nbody_sim::trajectory::SimSnapshot;
use nbody_sim::vector::{Scalar, Vec2, ONE_BITS, ZERO_BITS};

fn num(s: Scalar) -> f32 {
    f32::from_bits(s.to_bits())
}

fn scalar(x: f32) -> Scalar {
    Scalar::from_bits(x.to_bits())
}

fn vec2(x: f32, y: f32) -> Vec2 {
    Vec2::new(scalar(x), scalar(y))
}

fn glam(v: Vec2) -> bevy::math::Vec2 {
    bevy::math::Vec2::new(num(v.x), num(v.y))
}

fn bits(v: bevy::math::Vec2) -> Vec2 {
    vec2(v.x, v.y)
}

fn attract(acc: Vec2, g: Scalar, mass: Mass, from: Vec2, to: Vec2) -> Vec2 {
    let distance = glam(to) - glam(from);
    let sqr_dist = distance.length_squared();
    let direction = distance.normalize();
    bits(glam(acc) + direction * num(g) * num(mass.0) / sqr_dist)
}

fn drift(base: Vec2, rate: Vec2, dt: Scalar) -> Vec2 {
    bits(glam(base) + glam(rate) * num(dt))
}

fn at_rest(x: f32, y: f32) -> SimSnapshot {
    SimSnapshot { velocity: vec2(0.0, 0.0), position: vec2(x, y) }
}

#[test]
fn time_step_is_five_thousandths() {
    assert_eq!(num(time_step()), 0.005);
    assert_eq!(time_step().to_bits(), TIME_STEP_BITS);
}

#[test]
fn zero_and_one_have_the_bits_of_the_numbers() {
    assert_eq!(num(Scalar::zero()), 0.0);
    assert_eq!(num(Scalar::one()), 1.0);
    assert_eq!(Scalar::zero().to_bits(), ZERO_BITS);
    assert_eq!(Scalar::one().to_bits(), ONE_BITS);
    assert_eq!(Vec2::zero(), vec2(0.0, 0.0));
    assert_eq!(Vec2::from_bits(ONE_BITS, ZERO_BITS), vec2(1.0, 0.0));
}

#[test]
fn two_bodies_at_rest_fall_towards_each_other() {
    let masses = vec![Mass(scalar(1.0)), Mass(scalar(1.0))];
    let states = vec![at_rest(0.0, 0.0), at_rest(10.0, 0.0)];
    let g = scalar(1.0);

    let pull_on_a = total_pull(&attract, g, &masses, &states, 0);
    assert!((num(pull_on_a.x) - 0.01).abs() < 1e-8);
    assert_eq!(num(pull_on_a.y), 0.0);

    let a = step(&attract, &drift, g, &masses, &states, 0);
    assert!((num(a.velocity.x) - 0.00005).abs() < 1e-10);
    assert_eq!(num(a.velocity.y), 0.0);
    assert!((num(a.position.x) - 0.00000025).abs() < 1e-12);
    assert_eq!(num(a.position.y), 0.0);

    let b = step(&attract, &drift, g, &masses, &states, 1);
    assert!((num(b.velocity.x) + 0.00005).abs() < 1e-10);
    assert_eq!(num(b.velocity.y), 0.0);
    assert!((num(b.position.x) - (10.0 - 0.00000025)).abs() < 1e-5);
    assert_eq!(num(b.position.y), 0.0);
    assert_eq!(num(a.velocity.x), -num(b.velocity.x));
}

#[test]
fn step_is_the_semi_implicit_update() {
    let masses = vec![Mass(scalar(3.0)), Mass(scalar(5.0))];
    let states = vec![
        SimSnapshot { velocity: vec2(1.0, -2.0), position: vec2(0.0, 0.0) },
        SimSnapshot { velocity: vec2(0.0, 0.0), position: vec2(3.0, 4.0) },
    ];
    let g = scalar(2.0);
    let next = step(&attract, &drift, g, &masses, &states, 0);

    let dt = 0.005_f32;
    let direction = bevy::math::Vec2::new(3.0, 4.0).normalize();
    let accel = bevy::math::Vec2::ZERO + direction * 2.0 * 5.0 / 25.0;
    let velocity = bevy::math::Vec2::new(1.0, -2.0) + accel * dt;
    let position = bevy::math::Vec2::ZERO + velocity * dt;
    assert_eq!(next.velocity, bits(velocity));
    assert_eq!(next.position, bits(position));
    let explicit = bevy::math::Vec2::ZERO + bevy::math::Vec2::new(1.0, -2.0) * dt;
    assert_ne!(next.position, bits(explicit));
}

#[test]
fn a_body_does_not_pull_on_itself() {
    let masses = vec![Mass(scalar(7.0))];
    let states = vec![SimSnapshot { velocity: vec2(2.0, 0.0), position: vec2(1.0, 1.0) }];
    let pull = total_pull(&attract, scalar(1.0), &masses, &states, 0);
    assert_eq!(pull, Vec2::zero());
    let next = step(&attract, &drift, scalar(1.0), &masses, &states, 0);
    assert_eq!(next.velocity, vec2(2.0, 0.0));
    assert_eq!(num(next.position.x), 1.0 + 2.0 * 0.005);
    assert_eq!(num(next.position.y), 1.0);
}

#[test]
fn pulls_are_summed_in_body_order() {
    let masses = vec![Mass(scalar(1.0)), Mass(scalar(2.0)), Mass(scalar(4.0)), Mass(scalar(8.0))];
    let states = vec![at_rest(0.0, 0.0), at_rest(1.0, 0.0), at_rest(0.0, 2.0), at_rest(-4.0, 0.0)];
    let g = scalar(1.0);
    let pull = total_pull(&attract, g, &masses, &states, 2);

    let mut expected = Vec2::zero();
    for k in [0usize, 1, 3] {
        expected = attract(expected, g, masses[k], states[2].position, states[k].position);
    }
    assert_eq!(pull, expected);

    let record = |acc: Vec2, _g: Scalar, mass: Mass, _from: Vec2, _to: Vec2| -> Vec2 {
        vec2(num(acc.x) * 10.0 + num(mass.0), num(acc.y) + 1.0)
    };
    let trace = total_pull(&record, g, &masses, &states, 2);
    assert_eq!(trace, vec2(128.0, 3.0));
}

#[test]
fn coincident_bodies_give_a_state_that_is_not_finite() {
    let masses = vec![Mass(scalar(1.0)), Mass(scalar(1.0))];
    let states = vec![at_rest(1.0, 1.0), at_rest(1.0, 1.0)];
    let next = step(&attract, &drift, scalar(1.0), &masses, &states, 0);
    assert!(!num(next.velocity.x).is_finite());
    assert!(!num(next.position.x).is_finite());
}
