//! Behavior of the body store and the three-phase integrator.

use space::bodies::{
    new_body, tick, run_ticks, update_acceleration, update_transform, update_velocity,
    Acceleration, Body, SimulationSpeed, Space,
};
use space::fxp::FX;
use space::vec2::Vec2Fx;

fn vec(x: i64, y: i64) -> Vec2Fx {
    Vec2Fx { x, y }
}

/// World units to raw fixed-point steps.
fn raw(units: i64) -> i64 {
    units * FX
}

#[test]
fn store_add_get_remove() {
    let mut space = Space::new();
    assert_eq!(space.len(), 0);
    let a = new_body(10, 1, vec(raw(1), raw(2)), vec(0, 0));
    let b = new_body(20, 1, vec(raw(3), raw(4)), vec(raw(1), 0));
    space.add_body(a);
    space.add_body(b);
    assert_eq!(space.len(), 2);
    assert_eq!(space.get(0).mass.0, 10);
    assert_eq!(space.get(1).mass.0, 20);
    let removed = space.remove_body(0);
    assert_eq!(removed.mass.0, 10);
    assert_eq!(space.len(), 1);
    assert_eq!(space.get(0).mass.0, 20);
}

#[test]
fn radius_matches_cube_root_formula() {
    // radius = cbrt(3 * mass / (4 * pi * density)); for mass 4200 and
    // density 1 that is about 10.01 world units.
    let b = new_body(4200, 1, vec(0, 0), vec(0, 0));
    assert_eq!(b.radius.0, 655_944);
    let value = b.radius.0 as f64 / FX as f64;
    assert!((value - 10.01).abs() < 0.01, "radius {value}");
}

#[test]
fn radius_grows_with_mass_and_shrinks_with_density() {
    let small = new_body(100, 1, vec(0, 0), vec(0, 0));
    let large = new_body(100_000, 1, vec(0, 0), vec(0, 0));
    let dense = new_body(100_000, 50, vec(0, 0), vec(0, 0));
    assert!(small.radius.0 < large.radius.0);
    assert!(dense.radius.0 < large.radius.0);
}

#[test]
fn zero_bodies_tick_is_noop() {
    let mut space = Space::new();
    let speed = SimulationSpeed::default();
    tick(&mut space, &speed);
    assert_eq!(space.len(), 0);
}

#[test]
fn single_body_coasts_with_creation_velocity() {
    let mut space = Space::new();
    space.add_body(new_body(1000, 1, vec(0, 0), vec(raw(400), raw(-80))));
    let speed = SimulationSpeed::default();
    tick(&mut space, &speed);
    let b = *space.get(0);
    // No pairs: no acceleration; the position advances by
    // velocity / SIMULATION_CONSTANT in one tick.
    assert_eq!(b.velocity.0, vec(raw(400), raw(-80)));
    assert_eq!(b.position, vec(raw(100), raw(-20)));
    assert_eq!(b.acceleration.0, vec(0, 0));
}

#[test]
fn acceleration_resets_after_velocity_phase() {
    let mut space = Space::new();
    let mut a = new_body(50, 1, vec(0, 0), vec(raw(3), 0));
    a.acceleration = Acceleration(vec(raw(7), raw(-9)));
    let mut b = new_body(60, 1, vec(raw(10), 0), vec(0, 0));
    b.acceleration = Acceleration(vec(raw(-2), raw(4)));
    b.is_static = true;
    space.add_body(a);
    space.add_body(b);
    update_velocity(&mut space);
    // Every accumulator is exactly zero afterwards, static bodies included;
    // the non-static body absorbed its acceleration first.
    assert_eq!(space.get(0).acceleration.0, vec(0, 0));
    assert_eq!(space.get(1).acceleration.0, vec(0, 0));
    assert_eq!(space.get(0).velocity.0, vec(raw(10), raw(-9)));
    assert_eq!(space.get(1).velocity.0, vec(0, 0));
}

#[test]
fn static_body_never_moves() {
    let mut space = Space::new();
    let mut sun = new_body(1_000_000_000, 1, vec(raw(5), raw(-3)), vec(0, 0));
    sun.is_static = true;
    space.add_body(sun);
    space.add_body(new_body(1000, 1, vec(raw(200), 0), vec(0, raw(100))));
    let speed = SimulationSpeed::default();
    run_ticks(&mut space, &speed, 500);
    let s = *space.get(0);
    assert_eq!(s.position, vec(raw(5), raw(-3)));
    assert_eq!(s.velocity.0, vec(0, 0));
    assert!(s.is_static);
    // ... while its gravity did act on the other body.
    let other = *space.get(1);
    assert_ne!(other.position, vec(raw(200), 0));
}

#[test]
fn pairwise_kicks_obey_newtons_third_law() {
    let mut space = Space::new();
    space.add_body(new_body(5000, 1, vec(0, 0), vec(0, 0)));
    space.add_body(new_body(17_000, 1, vec(raw(30), raw(40)), vec(0, 0)));
    update_acceleration(&mut space);
    let a0 = space.get(0).acceleration.0;
    let a1 = space.get(1).acceleration.0;
    let m0 = space.get(0).mass.0 as i128;
    let m1 = space.get(1).mass.0 as i128;
    // mass_i * delta_accel_i == -mass_j * delta_accel_j up to one raw step
    // per unit of mass (the fixed-point truncation slack).
    let slack = m0 + m1;
    assert!((m0 * a0.x as i128 + m1 * a1.x as i128).abs() <= slack);
    assert!((m0 * a0.y as i128 + m1 * a1.y as i128).abs() <= slack);
    // and the kicks actually point toward the other body.
    assert!(a0.x > 0 && a0.y > 0);
    assert!(a1.x < 0 && a1.y < 0);
}

#[test]
fn momentum_is_conserved_up_to_truncation() {
    let mut space = Space::new();
    space.add_body(new_body(4000, 1, vec(0, 0), vec(raw(10), 0)));
    space.add_body(new_body(9000, 1, vec(raw(25), raw(-10)), vec(0, raw(-4))));
    space.add_body(new_body(2500, 1, vec(raw(-15), raw(20)), vec(raw(-3), raw(7))));
    let masses: Vec<i128> = (0..space.len()).map(|k| space.get(k).mass.0 as i128).collect();
    let before: (i128, i128) = (0..space.len()).fold((0, 0), |acc, k| {
        let v = space.get(k).velocity.0;
        (acc.0 + masses[k] * v.x as i128, acc.1 + masses[k] * v.y as i128)
    });
    update_acceleration(&mut space);
    update_velocity(&mut space);
    let after: (i128, i128) = (0..space.len()).fold((0, 0), |acc, k| {
        let v = space.get(k).velocity.0;
        (acc.0 + masses[k] * v.x as i128, acc.1 + masses[k] * v.y as i128)
    });
    // Slack: sum of (m_i + m_j) over all pairs == (n - 1) * total mass.
    let slack: i128 = 2 * masses.iter().sum::<i128>();
    assert!((after.0 - before.0).abs() <= slack, "x drift {}", after.0 - before.0);
    assert!((after.1 - before.1).abs() <= slack, "y drift {}", after.1 - before.1);
}

#[test]
fn simulation_speed_scales_the_position_step() {
    let mut space = Space::new();
    space.add_body(new_body(1000, 1, vec(0, 0), vec(raw(400), 0)));
    update_transform(&mut space, &SimulationSpeed(2 * FX));
    // Twice the default speed: 400 / 4 * 2 = 200 units in one tick.
    assert_eq!(space.get(0).position, vec(raw(200), 0));
}
