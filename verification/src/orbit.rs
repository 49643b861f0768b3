//! The orbit initializer.
//!
//! A pure computation placing a new body around an "orbitee" so that, were
//! the two alone, the new body would trace an approximately circular orbit:
//! the orbit radius comes from `G * orbitee_mass / speed^2` scaled by the
//! shared normalization constant, the placement angle is drawn uniformly at
//! random, and the velocity is tangential (the placement angle rotated a
//! quarter turn, with a random coin flip reversing the sense of the orbit)
//! added to the orbitee's own velocity.

use vstd::prelude::*;
use crate::bodies::{new_body, radius_spec, Body, Mass, Radius, Acceleration, Velocity};
use crate::config::{GRAVITY, SIMULATION_CONSTANT, TWO_PI_FX, PI_FX, HALF_PI_FX};
use crate::fxp;
use crate::fxp::{FX, FX_CUBED};
use crate::vec2::Vec2Fx;

verus! {

/// Relies on `rand::random`: one draw from the thread-local generator
/// through the `Standard` distribution.  Nothing is promised of the value;
/// callers state what holds of every outcome.
pub assume_specification<T>[ rand::random::<T> ]() -> (r: T)
    where
        rand::distributions::Standard: rand::distributions::Distribution<T>,
;

/// `6 * FX^2`: divisor of the cubic term of the sine approximation.
pub const SIN_C3: u128 = 25769803776;

/// `120 * FX^4`: divisor of the quintic term of the sine approximation.
pub const SIN_C5: u128 = 2213609288845146193920;

/// The sine approximation on a quarter turn, raw fixed point:
/// `y - y^3/(6 FX^2) + y^5/(120 FX^4)`, each division truncating.
pub open spec fn sin_poly(y: int) -> int {
    y - (y * y * y) / (SIN_C3 as int) + (y * y * y * y * y) / (SIN_C5 as int)
}

/// Sine over a whole turn, by quadrant reduction onto `sin_poly`.
pub open spec fn sin_fx_spec(a: int) -> int {
    if a <= PI_FX as int {
        if a <= HALF_PI_FX as int {
            sin_poly(a)
        } else {
            sin_poly(PI_FX as int - a)
        }
    } else {
        let b = a - PI_FX as int;
        if b <= HALF_PI_FX as int {
            -sin_poly(b)
        } else {
            -sin_poly(PI_FX as int - b)
        }
    }
}

/// Cosine over a whole turn: sine advanced a quarter turn.
pub open spec fn cos_fx_spec(a: int) -> int {
    if a + (HALF_PI_FX as int) < (TWO_PI_FX as int) {
        sin_fx_spec(a + HALF_PI_FX as int)
    } else {
        sin_fx_spec(a + HALF_PI_FX as int - TWO_PI_FX as int)
    }
}

/// Evaluate the quarter-turn sine polynomial.
fn sin_poly_fx(y: i64) -> (r: i64)
    requires
        0 <= y <= HALF_PI_FX,
    ensures
        r as int == sin_poly(y as int),
        0 <= r <= 205886,
{
    let yu: u128 = y as u128;
    proof {
        assert((yu as int) * (yu as int) <= u128::MAX as int
            && (yu as int) * (yu as int) * (yu as int) <= u128::MAX as int
            && (yu as int) * (yu as int) * (yu as int) * (yu as int) <= u128::MAX as int
            && (yu as int) * (yu as int) * (yu as int) * (yu as int) * (yu as int)
                <= u128::MAX as int
            && (yu as int) * (yu as int) * (yu as int) <= (SIN_C3 as int) * (yu as int)
            && (yu as int) * (yu as int) * (yu as int) * (yu as int) * (yu as int)
                <= (SIN_C5 as int) * (yu as int)) by (nonlinear_arith)
            requires
                0 <= yu as int,
                yu as int <= 102943;
    }
    let y3: u128 = yu * yu * yu;
    let y5: u128 = y3 * yu * yu;
    let t3: u128 = y3 / SIN_C3;
    let t5: u128 = y5 / SIN_C5;
    proof {
        vstd::arithmetic::div_mod::lemma_div_is_ordered(
            y3 as int,
            (SIN_C3 as int) * (yu as int),
            SIN_C3 as int,
        );
        vstd::arithmetic::div_mod::lemma_div_multiples_vanish(yu as int, SIN_C3 as int);
        vstd::arithmetic::div_mod::lemma_div_is_ordered(
            y5 as int,
            (SIN_C5 as int) * (yu as int),
            SIN_C5 as int,
        );
        vstd::arithmetic::div_mod::lemma_div_multiples_vanish(yu as int, SIN_C5 as int);
    }
    let s: u128 = yu + t5 - t3;
    s as i64
}

/// Fixed-point sine of an angle within one turn.
pub fn sin_fx(a: i64) -> (r: i64)
    requires
        0 <= a < TWO_PI_FX,
    ensures
        r as int == sin_fx_spec(a as int),
        -205886 <= r <= 205886,
{
    if a <= PI_FX {
        let y: i64 = if a <= HALF_PI_FX {
            a
        } else {
            PI_FX - a
        };
        sin_poly_fx(y)
    } else {
        let b: i64 = a - PI_FX;
        let y: i64 = if b <= HALF_PI_FX {
            b
        } else {
            PI_FX - b
        };
        let s: i64 = sin_poly_fx(y);
        -s
    }
}

/// Fixed-point cosine of an angle within one turn.
pub fn cos_fx(a: i64) -> (r: i64)
    requires
        0 <= a < TWO_PI_FX,
    ensures
        r as int == cos_fx_spec(a as int),
        -205886 <= r <= 205886,
{
    let shifted: i64 = a + HALF_PI_FX;
    let c: i64 = if shifted < TWO_PI_FX {
        shifted
    } else {
        shifted - TWO_PI_FX
    };
    sin_fx(c)
}

/// The unscaled circular-orbit radius around a central mass at a given
/// speed: `G * mass / speed^2` in raw fixed-point units.
pub open spec fn orbit_radius_spec(mass_central: u64, speed: i64) -> int
    recommends
        speed >= 1,
{
    fxp::i64_sat(
        fxp::u128_sat((GRAVITY as int) * mass_central * (FX_CUBED as int)) / (
        (speed as int) * (speed as int)),
    )
}

/// Radius at which a body orbiting the given central mass at the given
/// speed traces a circle under the integrator's force law.
pub fn calculate_radius_off_speed(mass_central: u64, speed: i64) -> (r: i64)
    requires
        speed >= 1,
    ensures
        r as int == orbit_radius_spec(mass_central, speed),
        r >= 0,
{
    proof {
        assert((GRAVITY as int) * (mass_central as int) <= u128::MAX as int) by (nonlinear_arith)
            requires
                GRAVITY as int == 10,
                0 <= mass_central as int <= u64::MAX as int;
        assert((speed as int) * (speed as int) <= u128::MAX as int
            && (speed as int) * (speed as int) >= 1) by (nonlinear_arith)
            requires
                1 <= speed as int <= i64::MAX as int;
    }
    let gm: u128 = (GRAVITY as u128) * (mass_central as u128);
    let num: u128 = fxp::mul_sat(gm, FX_CUBED);
    let den: u128 = (speed as u128) * (speed as u128);
    let q: u128 = num / den;
    fxp::sat_signed(false, q)
}

/// X-coordinate of the orbit placement: the orbitee's, displaced by
/// `radius * cos / FX`.
pub open spec fn orbit_pos_x(op: Vec2Fx, radius: int, c: int) -> int {
    fxp::i64_sat(op.x + fxp::i64_sat(fxp::tdiv(radius * c, FX as int)))
}

/// Y-coordinate of the orbit placement: the orbitee's, displaced by
/// `radius * sin / FX`.
pub open spec fn orbit_pos_y(op: Vec2Fx, radius: int, s: int) -> int {
    fxp::i64_sat(op.y + fxp::i64_sat(fxp::tdiv(radius * s, FX as int)))
}

/// X-velocity of the new body: tangential (the placement angle rotated a
/// quarter turn, reversed by the coin flip) plus the orbitee's.
pub open spec fn orbit_vel_x(ov: Vec2Fx, speed: int, s: int, flip: bool) -> int {
    let tang = if flip {
        s
    } else {
        -s
    };
    fxp::i64_sat(ov.x + fxp::i64_sat(fxp::tdiv(speed * tang, FX as int)))
}

/// Y-velocity of the new body; companion of `orbit_vel_x`.
pub open spec fn orbit_vel_y(ov: Vec2Fx, speed: int, c: int, flip: bool) -> int {
    let tang = if flip {
        -c
    } else {
        c
    };
    fxp::i64_sat(ov.y + fxp::i64_sat(fxp::tdiv(speed * tang, FX as int)))
}

/// Place a body on its orbit: position on the circle of the given radius at
/// the drawn angle (given by its cosine and sine), velocity tangential at
/// the given speed, both relative to the orbitee.
pub fn orbit_state(
    orbitee_position: Vec2Fx,
    orbitee_velocity: Vec2Fx,
    radius: i64,
    speed: i64,
    cos_a: i64,
    sin_a: i64,
    flip: bool,
) -> (pv: (Vec2Fx, Vec2Fx))
    requires
        -262144 <= cos_a <= 262144,
        -262144 <= sin_a <= 262144,
    ensures
        pv.0.x as int == orbit_pos_x(orbitee_position, radius as int, cos_a as int),
        pv.0.y as int == orbit_pos_y(orbitee_position, radius as int, sin_a as int),
        pv.1.x as int == orbit_vel_x(orbitee_velocity, speed as int, sin_a as int, flip),
        pv.1.y as int == orbit_vel_y(orbitee_velocity, speed as int, cos_a as int, flip),
{
    let px: i64 = fxp::sat_add(orbitee_position.x, fxp::mul_div_trunc(radius, cos_a, FX));
    let py: i64 = fxp::sat_add(orbitee_position.y, fxp::mul_div_trunc(radius, sin_a, FX));
    let tx: i64 = if flip {
        sin_a
    } else {
        -sin_a
    };
    let ty: i64 = if flip {
        -cos_a
    } else {
        cos_a
    };
    let vx: i64 = fxp::sat_add(orbitee_velocity.x, fxp::mul_div_trunc(speed, tx, FX));
    let vy: i64 = fxp::sat_add(orbitee_velocity.y, fxp::mul_div_trunc(speed, ty, FX));
    (Vec2Fx { x: px, y: py }, Vec2Fx { x: vx, y: vy })
}

/// The body `new_orbiting_body` builds once the angle and the coin flip are
/// fixed: orbit radius scaled by the shared normalization constant, position
/// and velocity from `orbit_state`, radius from mass and density, zero
/// acceleration, not static.
pub open spec fn orbit_body_spec(
    orbitee_mass: u64,
    orbitee_position: Vec2Fx,
    orbitee_velocity: Vec2Fx,
    mass: u64,
    density: u64,
    speed: i64,
    angle: int,
    flip: bool,
) -> Body {
    let radius = fxp::i64_sat(
        (SIMULATION_CONSTANT as int) * orbit_radius_spec(orbitee_mass, speed),
    );
    let c = cos_fx_spec(angle);
    let s = sin_fx_spec(angle);
    Body {
        mass: Mass(mass),
        position: Vec2Fx {
            x: orbit_pos_x(orbitee_position, radius, c) as i64,
            y: orbit_pos_y(orbitee_position, radius, s) as i64,
        },
        velocity: Velocity(
            Vec2Fx {
                x: orbit_vel_x(orbitee_velocity, speed as int, s, flip) as i64,
                y: orbit_vel_y(orbitee_velocity, speed as int, c, flip) as i64,
            },
        ),
        acceleration: Acceleration(Vec2Fx { x: 0, y: 0 }),
        radius: Radius(radius_spec(mass, density) as i64),
        is_static: false,
    }
}

/// Spawn a body in an approximately circular orbit around the given
/// orbitee.  The placement angle is drawn uniformly from one turn and the
/// orbit sense from a coin flip; everything after the two draws is the
/// deterministic `orbit_body_spec`.
pub fn new_orbiting_body(
    orbitee_mass: u64,
    orbitee_position: Vec2Fx,
    orbitee_velocity: Vec2Fx,
    mass: u64,
    density: u64,
    speed: i64,
) -> (b: Body)
    requires
        mass >= 1,
        density >= 1,
        speed >= 1,
    ensures
        exists|angle: int, flip: bool|
            0 <= angle < TWO_PI_FX as int && b == orbit_body_spec(
                orbitee_mass,
                orbitee_position,
                orbitee_velocity,
                mass,
                density,
                speed,
                angle,
                flip,
            ),
        b.wf(),
{
    let bits_angle: u64 = rand::random::<u64>();
    let bits_flip: u64 = rand::random::<u64>();
    let angle: i64 = (bits_angle % (TWO_PI_FX as u64)) as i64;
    let flip: bool = bits_flip & 1 == 1;
    let r0: i64 = calculate_radius_off_speed(orbitee_mass, speed);
    let radius: i64 = fxp::sat_narrow((SIMULATION_CONSTANT as i128) * (r0 as i128));
    let c: i64 = cos_fx(angle);
    let s: i64 = sin_fx(angle);
    let pv: (Vec2Fx, Vec2Fx) = orbit_state(
        orbitee_position,
        orbitee_velocity,
        radius,
        speed,
        c,
        s,
        flip,
    );
    let b: Body = new_body(mass, density, pv.0, pv.1);
    proof {
        assert(0 <= (angle as int) < (TWO_PI_FX as int) && b == orbit_body_spec(
            orbitee_mass,
            orbitee_position,
            orbitee_velocity,
            mass,
            density,
            speed,
            angle as int,
            flip,
        ));
    }
    b
}

} // verus!
