//! The orbit initializer and the trigonometric helpers.

use space::bodies::{new_body, run_ticks, tick, SimulationSpeed, Space};
use space::config::{HALF_PI_FX, PI_FX, TWO_PI_FX};
use space::fxp::FX;
use space::orbit::{calculate_radius_off_speed, cos_fx, new_orbiting_body, orbit_state, sin_fx};
use space::vec2::Vec2Fx;

fn vec(x: i64, y: i64) -> Vec2Fx {
    Vec2Fx { x, y }
}

fn raw(units: i64) -> i64 {
    units * FX
}

#[test]
fn sine_and_cosine_track_the_real_functions() {
    let mut a: i64 = 0;
    while a < TWO_PI_FX {
        let angle = a as f64 / FX as f64;
        let s = sin_fx(a) as f64 / FX as f64;
        let c = cos_fx(a) as f64 / FX as f64;
        assert!((s - angle.sin()).abs() < 0.006, "sin at {angle}: {s}");
        assert!((c - angle.cos()).abs() < 0.006, "cos at {angle}: {c}");
        a += 1309;
    }
}

#[test]
fn sine_cosine_cardinal_angles() {
    assert_eq!(sin_fx(0), 0);
    assert!((sin_fx(HALF_PI_FX) - FX).abs() < 400);
    assert!(sin_fx(PI_FX).abs() < 40);
    assert!((cos_fx(0) - FX).abs() < 400);
    assert!(cos_fx(HALF_PI_FX).abs() < 40);
    assert!((cos_fx(PI_FX) + FX).abs() < 400);
}

#[test]
fn orbit_radius_follows_vis_viva() {
    // G * M / v^2 with G = 10, M = 10^9, v = 1000 units/tick: 10^4 units.
    assert_eq!(calculate_radius_off_speed(1_000_000_000, raw(1000)), raw(10_000));
    // Four times slower: sixteen times wider.
    assert_eq!(calculate_radius_off_speed(1_000_000_000, raw(250)), raw(160_000));
}

#[test]
fn orbit_state_places_on_circle_with_tangential_velocity() {
    // Angle zero: cos = FX, sin = 0; body sits east of the orbitee and, with
    // no flip, moves perpendicular to the radius (negative-x of the sine
    // term is zero; all velocity goes to +y), inheriting the orbitee motion.
    let (pos, vel) = orbit_state(vec(raw(7), raw(1)), vec(raw(2), raw(3)), raw(100), raw(40), FX, 0, false);
    assert_eq!(pos, vec(raw(107), raw(1)));
    assert_eq!(vel, vec(raw(2), raw(43)));
    // The flip reverses the sense of the orbit.
    let (_, flipped) = orbit_state(vec(raw(7), raw(1)), vec(raw(2), raw(3)), raw(100), raw(40), FX, 0, true);
    assert_eq!(flipped, vec(raw(2), raw(-37)));
}

#[test]
fn orbiting_body_spawns_at_orbit_radius_and_speed() {
    let orbitee = new_body(1_000_000_000, 1, vec(raw(50), raw(-20)), vec(raw(5), raw(6)));
    let b = new_orbiting_body(orbitee.mass.0, orbitee.position, orbitee.velocity.0, 700, 1, raw(1000));
    assert_eq!(b.mass.0, 700);
    assert!(!b.is_static);
    assert_eq!(b.acceleration.0, vec(0, 0));
    // Distance from the orbitee: the vis-viva radius times the shared
    // normalization constant, 4 * 10^4 units, within the trig tolerance.
    let dx = (b.position.x - orbitee.position.x) as f64 / FX as f64;
    let dy = (b.position.y - orbitee.position.y) as f64 / FX as f64;
    let dist = (dx * dx + dy * dy).sqrt();
    assert!((dist - 40_000.0).abs() < 400.0, "distance {dist}");
    // Relative speed: the requested orbital speed, within the same tolerance.
    let vx = (b.velocity.0.x - orbitee.velocity.0.x) as f64 / FX as f64;
    let vy = (b.velocity.0.y - orbitee.velocity.0.y) as f64 / FX as f64;
    let speed = (vx * vx + vy * vy).sqrt();
    assert!((speed - 1000.0).abs() < 10.0, "speed {speed}");
}

#[test]
fn two_body_circular_orbit_returns_to_start() {
    // A static sun and one body placed by the orbit initializer: after one
    // full period the body is back near its starting state.
    let mut space = Space::new();
    let mut sun = new_body(1_000_000_000, 1, vec(0, 0), vec(0, 0));
    sun.is_static = true;
    let orbiter = new_orbiting_body(sun.mass.0, sun.position, sun.velocity.0, 1000, 1, raw(1000));
    space.add_body(sun);
    space.add_body(orbiter);
    let start = *space.get(1);
    // Orbit radius 40000 units, 250 units of arc per tick: the period is
    // 2 * pi * 40000 / 250, about 1005 ticks.
    let period: u64 = 1005;
    let speed = SimulationSpeed::default();
    run_ticks(&mut space, &speed, period);
    let end = *space.get(1);
    let radius_units = 40_000.0;
    let tolerance = 0.05;
    let dx = (end.position.x - start.position.x) as f64 / FX as f64;
    let dy = (end.position.y - start.position.y) as f64 / FX as f64;
    let pos_err = (dx * dx + dy * dy).sqrt();
    assert!(pos_err < tolerance * radius_units, "position error {pos_err}");
    let vx = (end.velocity.0.x - start.velocity.0.x) as f64 / FX as f64;
    let vy = (end.velocity.0.y - start.velocity.0.y) as f64 / FX as f64;
    let vel_err = (vx * vx + vy * vy).sqrt();
    assert!(vel_err < tolerance * 1000.0, "velocity error {vel_err}");
    // The sun never moved.
    assert_eq!(space.get(0).position, vec(0, 0));
    // And the body actually went somewhere in between.
    let mut mid = Space::new();
    let mut sun2 = new_body(1_000_000_000, 1, vec(0, 0), vec(0, 0));
    sun2.is_static = true;
    mid.add_body(sun2);
    mid.add_body(start);
    run_ticks(&mut mid, &speed, period / 2);
    let half = *mid.get(1);
    let hx = (half.position.x - start.position.x) as f64 / FX as f64;
    let hy = (half.position.y - start.position.y) as f64 / FX as f64;
    assert!((hx * hx + hy * hy).sqrt() > radius_units, "half-period moved too little");
}

#[test]
fn orbiting_body_feels_gravity_from_first_tick() {
    let mut space = Space::new();
    let mut sun = new_body(1_000_000_000, 1, vec(0, 0), vec(0, 0));
    sun.is_static = true;
    let orbiter = new_orbiting_body(sun.mass.0, sun.position, sun.velocity.0, 1000, 1, raw(1000));
    space.add_body(sun);
    space.add_body(orbiter);
    let v_before = space.get(1).velocity.0;
    let speed = SimulationSpeed::default();
    tick(&mut space, &speed);
    let v_after = space.get(1).velocity.0;
    assert_ne!(v_before, v_after);
}
