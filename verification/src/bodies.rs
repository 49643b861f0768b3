//! The body store and the integrator.
//!
//! A `Body` is a point mass; `Space` owns the flat, unordered collection of
//! them.  Each fixed tick runs three phases in order: pairwise acceleration
//! accumulation, velocity update, position update.  Every phase has an exact
//! contract over the raw fixed-point representation.

use vstd::prelude::*;
use vstd::pervasive::VecAdditionalExecFns;
use crate::config::{GRAVITY, SIMULATION_CONSTANT, DIST_CAP, FOUR_PI_FX};
use crate::fxp;
use crate::fxp::{FX, FX_CUBED, FX_FOURTH};
use crate::vec2::Vec2Fx;

verus! {

/// Gravitational mass, a whole number of mass units; at least 1 in any
/// well-formed body.
#[derive(Clone, Copy, PartialEq, Eq, Structural, Debug)]
pub struct Mass(pub u64);

/// Velocity in raw fixed-point units per tick.
#[derive(Clone, Copy, PartialEq, Eq, Structural, Debug)]
pub struct Velocity(pub Vec2Fx);

/// Per-tick acceleration accumulator, raw fixed-point.  Zero at the start of
/// each accumulation phase; reset to zero by the velocity phase.
#[derive(Clone, Copy, PartialEq, Eq, Structural, Debug)]
pub struct Acceleration(pub Vec2Fx);

/// Rendering radius derived at creation from mass and density, raw
/// fixed-point.  Never read by the integrator.
#[derive(Clone, Copy, PartialEq, Eq, Structural, Debug)]
pub struct Radius(pub i64);

/// Live speed multiplier of the simulation, raw fixed-point (`FX` is 1.0).
#[derive(Clone, Copy, PartialEq, Eq, Structural, Debug)]
pub struct SimulationSpeed(pub i64);

impl Default for Acceleration {
    /// A zero accumulator.
    fn default() -> (r: Self)
        ensures
            r.0.is_zero(),
    {
        Acceleration(Vec2Fx { x: 0, y: 0 })
    }
}

impl Default for SimulationSpeed {
    /// Unit speed.
    fn default() -> (r: Self)
        ensures
            r.0 == FX,
    {
        SimulationSpeed(FX)
    }
}

/// A simulated point mass.
#[derive(Clone, Copy, PartialEq, Eq, Structural, Debug)]
pub struct Body {
    pub mass: Mass,
    pub position: Vec2Fx,
    pub velocity: Velocity,
    pub acceleration: Acceleration,
    pub radius: Radius,
    pub is_static: bool,
}

impl Body {
    /// The data-model invariant: gravitational mass is positive.
    pub open spec fn wf(self) -> bool {
        self.mass.0 >= 1
    }
}

/// The body store: the authoritative, flat, unordered set of bodies.
pub struct Space {
    pub bodies: Vec<Body>,
}

impl Space {
    /// Every stored body is well formed.
    pub open spec fn wf(self) -> bool {
        forall|k: int| 0 <= k < self.bodies@.len() ==> (#[trigger] self.bodies@[k]).wf()
    }

    /// An empty store.
    pub fn new() -> (s: Space)
        ensures
            s.bodies@.len() == 0,
            s.wf(),
    {
        Space { bodies: Vec::new() }
    }

    /// How many bodies are stored.
    pub fn len(&self) -> (n: usize)
        ensures
            n == self.bodies@.len(),
    {
        self.bodies.len()
    }

    /// Read one body.
    pub fn get(&self, k: usize) -> (b: &Body)
        requires
            k < self.bodies@.len(),
        ensures
            *b == self.bodies@[k as int],
    {
        &self.bodies[k]
    }

    /// Append a body; the rest of the store is untouched.
    pub fn add_body(&mut self, b: Body)
        ensures
            final(self).bodies@ == old(self).bodies@.push(b),
    {
        self.bodies.push(b);
    }

    /// Remove one body; later bodies shift down one slot, in order.
    pub fn remove_body(&mut self, k: usize) -> (b: Body)
        requires
            k < old(self).bodies@.len(),
        ensures
            b == old(self).bodies@[k as int],
            final(self).bodies@ == old(self).bodies@.remove(k as int),
    {
        self.bodies.remove(k)
    }
}

/// The radius a body of the given mass and density gets at creation:
/// `cbrt(3 * mass / (4 * pi * density))` in raw fixed-point units.
pub open spec fn radius_spec(mass: u64, density: u64) -> int
    recommends
        density >= 1,
{
    fxp::cbrt_floor(
        fxp::u128_sat(3 * mass * (FX_FOURTH as int)) / ((FOUR_PI_FX as int) * density),
    )
}

/// Derive the rendering radius from mass and density.
pub fn calculate_radius(mass: u64, density: u64) -> (r: i64)
    requires
        density >= 1,
    ensures
        r as int == radius_spec(mass, density),
        0 <= r < fxp::CBRT_CAP as i64,
{
    let m3: u128 = 3 * (mass as u128);
    let num: u128 = fxp::mul_sat(m3, FX_FOURTH);
    proof {
        assert((FOUR_PI_FX as int) * (density as int) <= u128::MAX as int
            && (FOUR_PI_FX as int) * (density as int) >= FOUR_PI_FX as int) by (nonlinear_arith)
            requires
                1 <= density as int,
                density as int <= u64::MAX as int;
    }
    let den: u128 = (FOUR_PI_FX as u128) * (density as u128);
    let q: u128 = num / den;
    let root: u128 = fxp::icbrt(q);
    proof {
        vstd::arithmetic::div_mod::lemma_div_is_ordered(q as int, u128::MAX as int, 1);
    }
    root as i64
}

/// Create a body: radius derived from mass and density, zero acceleration,
/// not static.  Mass and density must be positive (degenerate bodies are
/// rejected here rather than allowed to poison the whole system).
pub fn new_body(mass: u64, density: u64, position: Vec2Fx, velocity: Vec2Fx) -> (b: Body)
    requires
        mass >= 1,
        density >= 1,
    ensures
        b.mass.0 == mass,
        b.position == position,
        b.velocity.0 == velocity,
        b.acceleration.0.is_zero(),
        b.radius.0 as int == radius_spec(mass, density),
        !b.is_static,
        b.wf(),
{
    Body {
        mass: Mass(mass),
        position,
        velocity: Velocity(velocity),
        acceleration: Acceleration(Vec2Fx { x: 0, y: 0 }),
        radius: Radius(calculate_radius(mass, density)),
        is_static: false,
    }
}

impl Default for Body {
    /// A unit-mass body at rest at the origin, with the radius that mass 1
    /// and density 1 derive.
    fn default() -> (r: Self)
        ensures
            r.mass.0 == 1,
            r.position.is_zero(),
            r.velocity.0.is_zero(),
            r.acceleration.0.is_zero(),
            r.radius.0 as int == radius_spec(1, 1),
            !r.is_static,
            r.wf(),
    {
        new_body(1, 1, Vec2Fx { x: 0, y: 0 }, Vec2Fx { x: 0, y: 0 })
    }
}

/// What the velocity phase does to one body: a non-static body gains its
/// accumulated acceleration; every body's accumulator is reset to zero.
pub open spec fn vel_phase_body(b: Body) -> Body {
    Body {
        mass: b.mass,
        position: b.position,
        velocity: if b.is_static {
            b.velocity
        } else {
            Velocity(
                Vec2Fx {
                    x: fxp::i64_sat(b.velocity.0.x + b.acceleration.0.x) as i64,
                    y: fxp::i64_sat(b.velocity.0.y + b.acceleration.0.y) as i64,
                },
            )
        },
        acceleration: Acceleration(Vec2Fx { x: 0, y: 0 }),
        radius: b.radius,
        is_static: b.is_static,
    }
}

/// Velocity update: `velocity += acceleration` for every non-static body,
/// then the accumulator is reset to the zero vector for every body.
pub fn update_velocity(space: &mut Space)
    ensures
        final(space).bodies@.len() == old(space).bodies@.len(),
        forall|k: int|
            0 <= k < old(space).bodies@.len() ==> #[trigger] final(space).bodies@[k]
                == vel_phase_body(old(space).bodies@[k]),
{
    let n: usize = space.bodies.len();
    let mut k: usize = 0;
    while k < n
        invariant
            k <= n,
            n == space.bodies@.len(),
            n == old(space).bodies@.len(),
            forall|i: int|
                0 <= i < k ==> #[trigger] space.bodies@[i]
                    == vel_phase_body(old(space).bodies@[i]),
            forall|i: int| k <= i < n ==> #[trigger] space.bodies@[i] == old(space).bodies@[i],
        decreases n - k,
    {
        let mut b: Body = space.bodies[k];
        if !b.is_static {
            b.velocity = Velocity(b.velocity.0.sat_add(b.acceleration.0));
        }
        b.acceleration = Acceleration(Vec2Fx { x: 0, y: 0 });
        space.bodies.set(k, b);
        k = k + 1;
    }
}

/// What the position phase does to one body: the position advances by the
/// velocity scaled by `sim_speed / (FX * SIMULATION_CONSTANT)`.
pub open spec fn pos_phase_body(b: Body, sim_speed: i64) -> Body {
    Body {
        mass: b.mass,
        position: Vec2Fx {
            x: fxp::i64_sat(
                b.position.x + fxp::i64_sat(
                    fxp::tdiv(
                        (b.velocity.0.x as int) * (sim_speed as int),
                        (FX as int) * (SIMULATION_CONSTANT as int),
                    ),
                ),
            ) as i64,
            y: fxp::i64_sat(
                b.position.y + fxp::i64_sat(
                    fxp::tdiv(
                        (b.velocity.0.y as int) * (sim_speed as int),
                        (FX as int) * (SIMULATION_CONSTANT as int),
                    ),
                ),
            ) as i64,
        },
        velocity: b.velocity,
        acceleration: b.acceleration,
        radius: b.radius,
        is_static: b.is_static,
    }
}

/// Position update: `position += velocity * step` for every body, static
/// ones included (harmless: a static body's velocity is never advanced).
/// The step combines the one-tick duration, the live speed multiplier and
/// the shared normalization constant.
pub fn update_transform(space: &mut Space, sim_speed: &SimulationSpeed)
    ensures
        final(space).bodies@.len() == old(space).bodies@.len(),
        forall|k: int|
            0 <= k < old(space).bodies@.len() ==> #[trigger] final(space).bodies@[k]
                == pos_phase_body(old(space).bodies@[k], sim_speed.0),
{
    let n: usize = space.bodies.len();
    let mut k: usize = 0;
    while k < n
        invariant
            k <= n,
            n == space.bodies@.len(),
            n == old(space).bodies@.len(),
            forall|i: int|
                0 <= i < k ==> #[trigger] space.bodies@[i]
                    == pos_phase_body(old(space).bodies@[i], sim_speed.0),
            forall|i: int| k <= i < n ==> #[trigger] space.bodies@[i] == old(space).bodies@[i],
        decreases n - k,
    {
        let mut b: Body = space.bodies[k];
        let step = Vec2Fx {
            x: fxp::mul_div_trunc(b.velocity.0.x, sim_speed.0, FX * SIMULATION_CONSTANT),
            y: fxp::mul_div_trunc(b.velocity.0.y, sim_speed.0, FX * SIMULATION_CONSTANT),
        };
        b.position = b.position.sat_add(step);
        space.bodies.set(k, b);
        k = k + 1;
    }
}

/// Saturated x-difference from the first body toward the second.
pub open spec fn delta_x(pi: Vec2Fx, pj: Vec2Fx) -> int {
    fxp::i64_sat(pj.x - pi.x)
}

/// Saturated y-difference from the first body toward the second.
pub open spec fn delta_y(pi: Vec2Fx, pj: Vec2Fx) -> int {
    fxp::i64_sat(pj.y - pi.y)
}

/// Squared length of the saturated difference vector.
pub open spec fn dist_sq(pi: Vec2Fx, pj: Vec2Fx) -> int {
    delta_x(pi, pj) * delta_x(pi, pj) + delta_y(pi, pj) * delta_y(pi, pj)
}

/// Floor of the separation distance, in raw steps.
pub open spec fn dist(pi: Vec2Fx, pj: Vec2Fx) -> int {
    fxp::sqrt_floor(dist_sq(pi, pj))
}

/// Cube of the separation, clamped to at least one raw step so that the
/// force law's division is defined even for coincident bodies.
pub open spec fn dist_cubed(pi: Vec2Fx, pj: Vec2Fx) -> int {
    let d = dist(pi, pj);
    if d < 1 {
        1
    } else {
        d * d * d
    }
}

/// Magnitude of one acceleration component contributed by a pair:
/// `G * m * |delta| * FX^3 / dist^3`, the product clamped into `u128`
/// before the division.
pub open spec fn kick_mag(dcomp: int, m: u64, d3: int) -> int
    recommends
        d3 >= 1,
{
    fxp::u128_sat((GRAVITY as int) * m * vstd::math::abs(dcomp) * (FX_CUBED as int)) / d3
}

/// Acceleration gained by the first body of a pair from the second body
/// (of mass `mj`), as `(x, y)` raw components, saturated to `i64`.
pub open spec fn kick_first(pi: Vec2Fx, pj: Vec2Fx, mj: u64) -> (int, int) {
    let dx = delta_x(pi, pj);
    let dy = delta_y(pi, pj);
    if dist(pi, pj) > DIST_CAP as int {
        (0, 0)
    } else {
        let d3 = dist_cubed(pi, pj);
        let mx = kick_mag(dx, mj, d3);
        let my = kick_mag(dy, mj, d3);
        (
            if dx < 0 {
                fxp::i64_sat(-mx)
            } else {
                fxp::i64_sat(mx)
            },
            if dy < 0 {
                fxp::i64_sat(-my)
            } else {
                fxp::i64_sat(my)
            },
        )
    }
}

/// Acceleration gained by the second body of a pair from the first body
/// (of mass `mi`): the same magnitudes as `kick_first` scaled by the other
/// mass, pointing the opposite way.
pub open spec fn kick_second(pi: Vec2Fx, pj: Vec2Fx, mi: u64) -> (int, int) {
    let dx = delta_x(pi, pj);
    let dy = delta_y(pi, pj);
    if dist(pi, pj) > DIST_CAP as int {
        (0, 0)
    } else {
        let d3 = dist_cubed(pi, pj);
        let mx = kick_mag(dx, mi, d3);
        let my = kick_mag(dy, mi, d3);
        (
            if dx < 0 {
                fxp::i64_sat(mx)
            } else {
                fxp::i64_sat(-mx)
            },
            if dy < 0 {
                fxp::i64_sat(my)
            } else {
                fxp::i64_sat(-my)
            },
        )
    }
}

/// Compute the two kicks of one unordered pair.
fn pair_kick(pi: Vec2Fx, pj: Vec2Fx, mi: u64, mj: u64) -> (r: (Vec2Fx, Vec2Fx))
    ensures
        r.0.x as int == kick_first(pi, pj, mj).0,
        r.0.y as int == kick_first(pi, pj, mj).1,
        r.1.x as int == kick_second(pi, pj, mi).0,
        r.1.y as int == kick_second(pi, pj, mi).1,
{
    let dx: i64 = fxp::sat_narrow(pj.x as i128 - pi.x as i128);
    let dy: i64 = fxp::sat_narrow(pj.y as i128 - pi.y as i128);
    let ax: u128 = fxp::magnitude(dx);
    let ay: u128 = fxp::magnitude(dy);
    proof {
        assert((ax as int) * (ax as int) == (dx as int) * (dx as int)
            && (ay as int) * (ay as int) == (dy as int) * (dy as int)
            && (ax as int) * (ax as int) + (ay as int) * (ay as int) <= u128::MAX as int)
            by (nonlinear_arith)
            requires
                ax as int == vstd::math::abs(dx as int),
                ay as int == vstd::math::abs(dy as int),
                -9223372036854775808 <= dx as int <= 9223372036854775807,
                -9223372036854775808 <= dy as int <= 9223372036854775807;
    }
    let d2: u128 = ax * ax + ay * ay;
    let d: u128 = fxp::isqrt(d2);
    if d > DIST_CAP {
        (Vec2Fx { x: 0, y: 0 }, Vec2Fx { x: 0, y: 0 })
    } else {
        proof {
            assert((d as int) * (d as int) <= u128::MAX as int
                && (d as int) * (d as int) * (d as int) <= u128::MAX as int)
                by (nonlinear_arith)
                requires
                    0 <= d as int,
                    d as int <= 6981463658331;
        }
        let d3: u128 = if d == 0 {
            1
        } else {
            d * d * d
        };
        proof {
            if d != 0 {
                assert((d as int) * (d as int) * (d as int) >= 1) by (nonlinear_arith)
                    requires
                        d as int >= 1;
            }
        }
        proof {
            assert((GRAVITY as int) * (mi as int) <= u128::MAX as int
                && (GRAVITY as int) * (mj as int) <= u128::MAX as int) by (nonlinear_arith)
                requires
                    GRAVITY as int == 10,
                    0 <= mi as int <= u64::MAX as int,
                    0 <= mj as int <= u64::MAX as int;
        }
        let gm_i: u128 = (GRAVITY as u128) * (mi as u128);
        let gm_j: u128 = (GRAVITY as u128) * (mj as u128);
        let numx_i: u128 = fxp::mul_sat(fxp::mul_sat(gm_j, ax), FX_CUBED);
        let numy_i: u128 = fxp::mul_sat(fxp::mul_sat(gm_j, ay), FX_CUBED);
        let numx_j: u128 = fxp::mul_sat(fxp::mul_sat(gm_i, ax), FX_CUBED);
        let numy_j: u128 = fxp::mul_sat(fxp::mul_sat(gm_i, ay), FX_CUBED);
        proof {
            fxp::lemma_mul_sat_chain((gm_j as int) * (ax as int), FX_CUBED as int);
            fxp::lemma_mul_sat_chain((gm_j as int) * (ay as int), FX_CUBED as int);
            fxp::lemma_mul_sat_chain((gm_i as int) * (ax as int), FX_CUBED as int);
            fxp::lemma_mul_sat_chain((gm_i as int) * (ay as int), FX_CUBED as int);
        }
        (
            Vec2Fx { x: fxp::sat_signed(dx < 0, numx_i / d3), y: fxp::sat_signed(dy < 0, numy_i / d3) },
            Vec2Fx { x: fxp::sat_signed(dx >= 0, numx_j / d3), y: fxp::sat_signed(dy >= 0, numy_j / d3) },
        )
    }
}

/// The kick body `k` receives from partner `q`, as the pair `(min, max)`
/// computes it in index order.
pub open spec fn kick_on(o: Seq<Body>, k: int, q: int) -> (int, int)
    recommends
        0 <= k < o.len(),
        0 <= q < o.len(),
        k != q,
{
    if q < k {
        kick_second(o[q].position, o[k].position, o[q].mass.0)
    } else {
        kick_first(o[k].position, o[q].position, o[q].mass.0)
    }
}

/// Sum of the x-kicks body `k` receives from partners with index below `p`.
pub open spec fn sum_kick_x(o: Seq<Body>, k: int, p: int) -> int
    decreases p,
{
    if p <= 0 {
        0
    } else {
        sum_kick_x(o, k, p - 1) + if p - 1 == k {
            0
        } else {
            kick_on(o, k, p - 1).0
        }
    }
}

/// Sum of the y-kicks body `k` receives from partners with index below `p`.
pub open spec fn sum_kick_y(o: Seq<Body>, k: int, p: int) -> int
    decreases p,
{
    if p <= 0 {
        0
    } else {
        sum_kick_y(o, k, p - 1) + if p - 1 == k {
            0
        } else {
            kick_on(o, k, p - 1).1
        }
    }
}

/// Sum of the absolute x-kicks body `k` receives from partners below `p`.
pub open spec fn abs_sum_kick_x(o: Seq<Body>, k: int, p: int) -> int
    decreases p,
{
    if p <= 0 {
        0
    } else {
        abs_sum_kick_x(o, k, p - 1) + if p - 1 == k {
            0
        } else {
            vstd::math::abs(kick_on(o, k, p - 1).0)
        }
    }
}

/// Sum of the absolute y-kicks body `k` receives from partners below `p`.
pub open spec fn abs_sum_kick_y(o: Seq<Body>, k: int, p: int) -> int
    decreases p,
{
    if p <= 0 {
        0
    } else {
        abs_sum_kick_y(o, k, p - 1) + if p - 1 == k {
            0
        } else {
            vstd::math::abs(kick_on(o, k, p - 1).1)
        }
    }
}

/// Every accumulator is zero, as the accumulation phase requires at entry.
pub open spec fn accels_zero(o: Seq<Body>) -> bool {
    forall|k: int| 0 <= k < o.len() ==> (#[trigger] o[k]).acceleration.0.is_zero()
}

/// Every body's total absolute kick fits an `i64`, so no partial sum can
/// saturate while the phase accumulates.
pub open spec fn sums_bounded(o: Seq<Body>) -> bool {
    forall|k: int|
        0 <= k < o.len() ==> #[trigger] abs_sum_kick_x(o, k, o.len() as int) <= i64::MAX as int
            && abs_sum_kick_y(o, k, o.len() as int) <= i64::MAX as int
}

/// Two bodies agree on everything but the acceleration accumulator.
pub open spec fn frame_eq(a: Body, b: Body) -> bool {
    a.mass == b.mass && a.position == b.position && a.velocity == b.velocity && a.radius
        == b.radius && a.is_static == b.is_static
}

/// A kick sum is no larger in magnitude than the matching absolute sum.
pub proof fn lemma_sum_within_abs(o: Seq<Body>, k: int, p: int)
    ensures
        vstd::math::abs(sum_kick_x(o, k, p)) <= abs_sum_kick_x(o, k, p),
        vstd::math::abs(sum_kick_y(o, k, p)) <= abs_sum_kick_y(o, k, p),
    decreases p,
{
    if p > 0 {
        lemma_sum_within_abs(o, k, p - 1);
    }
}

/// Absolute kick sums only grow as more partners are included.
pub proof fn lemma_abs_sum_mono(o: Seq<Body>, k: int, p: int, q: int)
    requires
        p <= q,
    ensures
        abs_sum_kick_x(o, k, p) <= abs_sum_kick_x(o, k, q),
        abs_sum_kick_y(o, k, p) <= abs_sum_kick_y(o, k, q),
    decreases q - p,
{
    if p < q {
        lemma_abs_sum_mono(o, k, p, q - 1);
    }
}

/// The accumulator a body holds while the phase is at pair `(i, j)`:
/// bodies before `i` are fully accumulated, body `i` has partners below `j`,
/// later bodies have the partners below `i` (plus `i` itself once paired).
spec fn mid_accel_x(o: Seq<Body>, k: int, i: int, j: int) -> int {
    if k < i {
        sum_kick_x(o, k, o.len() as int)
    } else if k == i {
        sum_kick_x(o, k, j)
    } else if k < j {
        sum_kick_x(o, k, i + 1)
    } else {
        sum_kick_x(o, k, i)
    }
}

/// The y-component companion of `mid_accel_x`.
spec fn mid_accel_y(o: Seq<Body>, k: int, i: int, j: int) -> int {
    if k < i {
        sum_kick_y(o, k, o.len() as int)
    } else if k == i {
        sum_kick_y(o, k, j)
    } else if k < j {
        sum_kick_y(o, k, i + 1)
    } else {
        sum_kick_y(o, k, i)
    }
}

/// Acceleration accumulation: every unordered pair of distinct bodies is
/// visited exactly once; each side gains `G * other_mass * delta / dist^3`,
/// toward the other body.  Positions, velocities, masses, radii and static
/// flags are untouched.  When every accumulator starts at zero and no sum
/// can saturate, each body ends with exactly the sum of its kicks.
pub fn update_acceleration(space: &mut Space)
    ensures
        final(space).bodies@.len() == old(space).bodies@.len(),
        forall|k: int|
            0 <= k < old(space).bodies@.len() ==> frame_eq(
                #[trigger] final(space).bodies@[k],
                old(space).bodies@[k],
            ),
        old(space).bodies@.len() <= 1 ==> final(space).bodies@ == old(space).bodies@,
        accels_zero(old(space).bodies@) && sums_bounded(old(space).bodies@) ==> forall|k: int|
            0 <= k < old(space).bodies@.len() ==> (#[trigger] final(space).bodies@[k])
                .acceleration.0.x as int == sum_kick_x(
                old(space).bodies@,
                k,
                old(space).bodies@.len() as int,
            ) && final(space).bodies@[k].acceleration.0.y as int == sum_kick_y(
                old(space).bodies@,
                k,
                old(space).bodies@.len() as int,
            ),
{
    let ghost o: Seq<Body> = old(space).bodies@;
    let n: usize = space.bodies.len();
    if n <= 1 {
        proof {
            if n == 1 {
                assert(sum_kick_x(o, 0, 0) == 0);
                assert(sum_kick_y(o, 0, 0) == 0);
                assert(sum_kick_x(o, 0, 1) == 0);
                assert(sum_kick_y(o, 0, 1) == 0);
            }
        }
        return ;
    }
    proof {
        assert(forall|k: int| 0 <= k < n ==> sum_kick_x(o, k, 0) == 0);
        assert(forall|k: int| 0 <= k < n ==> sum_kick_y(o, k, 0) == 0);
        assert(sum_kick_x(o, 0, 0) == 0);
        assert(sum_kick_y(o, 0, 0) == 0);
        assert(sum_kick_x(o, 0, 1) == 0);
        assert(sum_kick_y(o, 0, 1) == 0);
    }
    let mut i: usize = 0;
    while i < n
        invariant
            i <= n,
            n == space.bodies@.len(),
            n == old(space).bodies@.len(),
            o == old(space).bodies@,
            forall|k: int|
                0 <= k < n ==> frame_eq(#[trigger] space.bodies@[k], o[k]),
            accels_zero(o) && sums_bounded(o) ==> forall|k: int|
                0 <= k < n ==> (#[trigger] space.bodies@[k]).acceleration.0.x as int
                    == mid_accel_x(o, k, i as int, i as int + 1)
                    && space.bodies@[k].acceleration.0.y as int == mid_accel_y(
                    o,
                    k,
                    i as int,
                    i as int + 1,
                ),
        decreases n - i,
    {
        let mut j: usize = i + 1;
        while j < n
            invariant
                i < n,
                i + 1 <= j <= n,
                n == space.bodies@.len(),
                n == old(space).bodies@.len(),
                o == old(space).bodies@,
                forall|k: int|
                    0 <= k < n ==> frame_eq(#[trigger] space.bodies@[k], o[k]),
                accels_zero(o) && sums_bounded(o) ==> forall|k: int|
                    0 <= k < n ==> (#[trigger] space.bodies@[k]).acceleration.0.x as int
                        == mid_accel_x(o, k, i as int, j as int)
                        && space.bodies@[k].acceleration.0.y as int == mid_accel_y(
                        o,
                        k,
                        i as int,
                        j as int,
                    ),
            decreases n - j,
        {
            let bi: Body = space.bodies[i];
            let bj: Body = space.bodies[j];
            let kicks: (Vec2Fx, Vec2Fx) = pair_kick(bi.position, bj.position, bi.mass.0, bj.mass.0);
            let mut bi2: Body = bi;
            bi2.acceleration = Acceleration(bi.acceleration.0.sat_add(kicks.0));
            let mut bj2: Body = bj;
            bj2.acceleration = Acceleration(bj.acceleration.0.sat_add(kicks.1));
            space.bodies.set(i, bi2);
            space.bodies.set(j, bj2);
            proof {
                let ii: int = i as int;
                let jj: int = j as int;
                assert(kicks.0.x as int == kick_on(o, ii, jj).0);
                assert(kicks.0.y as int == kick_on(o, ii, jj).1);
                assert(kicks.1.x as int == kick_on(o, jj, ii).0);
                assert(kicks.1.y as int == kick_on(o, jj, ii).1);
                if accels_zero(o) && sums_bounded(o) {
                    lemma_sum_within_abs(o, ii, jj + 1);
                    lemma_abs_sum_mono(o, ii, jj + 1, n as int);
                    lemma_sum_within_abs(o, jj, ii + 1);
                    lemma_abs_sum_mono(o, jj, ii + 1, n as int);
                    assert(sum_kick_x(o, ii, jj + 1) == sum_kick_x(o, ii, jj) + kick_on(
                        o,
                        ii,
                        jj,
                    ).0);
                    assert(sum_kick_y(o, ii, jj + 1) == sum_kick_y(o, ii, jj) + kick_on(
                        o,
                        ii,
                        jj,
                    ).1);
                    assert(sum_kick_x(o, jj, ii + 1) == sum_kick_x(o, jj, ii) + kick_on(
                        o,
                        jj,
                        ii,
                    ).0);
                    assert(sum_kick_y(o, jj, ii + 1) == sum_kick_y(o, jj, ii) + kick_on(
                        o,
                        jj,
                        ii,
                    ).1);
                }
            }
            j = j + 1;
        }
        proof {
            let ii: int = i as int;
            if ii + 1 < n {
                assert(sum_kick_x(o, ii + 1, ii + 2) == sum_kick_x(o, ii + 1, ii + 1));
                assert(sum_kick_y(o, ii + 1, ii + 2) == sum_kick_y(o, ii + 1, ii + 1));
            }
        }
        i = i + 1;
    }
}

/// What one whole tick does to body `k` when no arithmetic saturates: the
/// accumulator fills with the body's kick sums, the velocity absorbs it,
/// and the position advances by the scaled velocity.
pub open spec fn accum_phase_body(o: Seq<Body>, k: int) -> Body {
    Body {
        mass: o[k].mass,
        position: o[k].position,
        velocity: o[k].velocity,
        acceleration: Acceleration(
            Vec2Fx {
                x: sum_kick_x(o, k, o.len() as int) as i64,
                y: sum_kick_y(o, k, o.len() as int) as i64,
            },
        ),
        radius: o[k].radius,
        is_static: o[k].is_static,
    }
}

/// One full simulation tick: acceleration accumulation, then velocity
/// update, then position update, in that exact order.
///
/// Besides the per-phase contracts (available by calling the phases
/// directly), a tick guarantees: masses, radii and static flags never
/// change; every accumulator ends at zero; a static body with zero velocity
/// moves nowhere; an empty store is a no-op; and a lone body just coasts.
pub fn tick(space: &mut Space, sim_speed: &SimulationSpeed)
    ensures
        final(space).bodies@.len() == old(space).bodies@.len(),
        forall|k: int|
            0 <= k < old(space).bodies@.len() ==> (#[trigger] final(space).bodies@[k]).mass
                == old(space).bodies@[k].mass && final(space).bodies@[k].radius == old(space).bodies@[k].radius && final(space).bodies@[k].is_static == old(space).bodies@[k].is_static,
        forall|k: int|
            0 <= k < old(space).bodies@.len() ==> (#[trigger] final(space).bodies@[k]).acceleration.0.is_zero(),
        forall|k: int|
            0 <= k < old(space).bodies@.len() && old(space).bodies@[k].is_static && old(space).bodies@[k].velocity.0.is_zero() ==> (#[trigger] final(space).bodies@[k]).position
                == old(space).bodies@[k].position && final(space).bodies@[k].velocity.0.is_zero(),
        old(space).bodies@.len() == 0 ==> final(space).bodies@ =~= old(space).bodies@,
        old(space).bodies@.len() == 1 ==> final(space).bodies@[0] == pos_phase_body(
            vel_phase_body(old(space).bodies@[0]),
            sim_speed.0,
        ),
        accels_zero(old(space).bodies@) && sums_bounded(old(space).bodies@) ==> forall|k: int|
            0 <= k < old(space).bodies@.len() ==> #[trigger] final(space).bodies@[k]
                == pos_phase_body(
                vel_phase_body(accum_phase_body(old(space).bodies@, k)),
                sim_speed.0,
            ),
{
    update_acceleration(space);
    update_velocity(space);
    update_transform(space, sim_speed);
    proof {
        assert((0 as int) * (sim_speed.0 as int) == 0) by (nonlinear_arith);
    }
}

/// Run a number of whole ticks in a row.
///
/// Masses, radii and static flags never change, and a static body with zero
/// velocity keeps its position and velocity across any number of ticks.
pub fn run_ticks(space: &mut Space, sim_speed: &SimulationSpeed, ticks: u64)
    ensures
        final(space).bodies@.len() == old(space).bodies@.len(),
        forall|k: int|
            0 <= k < old(space).bodies@.len() ==> (#[trigger] final(space).bodies@[k]).mass
                == old(space).bodies@[k].mass && final(space).bodies@[k].radius == old(space).bodies@[k].radius && final(space).bodies@[k].is_static == old(space).bodies@[k].is_static,
        forall|k: int|
            0 <= k < old(space).bodies@.len() && old(space).bodies@[k].is_static && old(space).bodies@[k].velocity.0.is_zero() ==> (#[trigger] final(space).bodies@[k]).position
                == old(space).bodies@[k].position && final(space).bodies@[k].velocity.0.is_zero(),
        ticks >= 1 ==> forall|k: int|
            0 <= k < old(space).bodies@.len() ==> (#[trigger] final(space).bodies@[k]).acceleration.0.is_zero(),
{
    let mut t: u64 = 0;
    while t < ticks
        invariant
            t <= ticks,
            space.bodies@.len() == old(space).bodies@.len(),
            forall|k: int|
                0 <= k < old(space).bodies@.len() ==> (#[trigger] space.bodies@[k]).mass == old(space).bodies@[k].mass && space.bodies@[k].radius == old(space).bodies@[k].radius
                    && space.bodies@[k].is_static == old(space).bodies@[k].is_static,
            forall|k: int|
                0 <= k < old(space).bodies@.len() && old(space).bodies@[k].is_static && old(space).bodies@[k].velocity.0.is_zero() ==> (#[trigger] space.bodies@[k]).position
                    == old(space).bodies@[k].position && space.bodies@[k].velocity.0.is_zero(),
            t >= 1 ==> forall|k: int|
                0 <= k < old(space).bodies@.len() ==> (#[trigger] space.bodies@[k])
                    .acceleration.0.is_zero(),
        decreases ticks - t,
    {
        tick(space, sim_speed);
        t = t + 1;
    }
}

} // verus!
