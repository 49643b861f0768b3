//! System-wide laws of the integrator, proved once and for all.
//!
//! The integrator works in fixed-point arithmetic, so the classical
//! conservation laws hold up to the truncation of the two divisions each
//! pair performs — a slack of at most one raw step per unit of mass, stated
//! exactly below.

use vstd::prelude::*;
use vstd::arithmetic::div_mod::{lemma_fundamental_div_mod, lemma_mod_bound};
use crate::bodies::{
    delta_x, delta_y, dist, dist_cubed, frame_eq, kick_first, kick_mag, kick_on, kick_second,
    sum_kick_x, sum_kick_y, vel_phase_body, Body,
};
use crate::config::{DIST_CAP, GRAVITY};
use crate::fxp::FX_CUBED;
use crate::vec2::Vec2Fx;

verus! {

/// The pair arithmetic stays inside the machine range for a body of mass
/// `m` on this pair: neither wide product is clamped, and neither kick
/// component is clamped.
pub open spec fn kick_unsaturated(pi: Vec2Fx, pj: Vec2Fx, m: u64) -> bool {
    let d3 = dist_cubed(pi, pj);
    (GRAVITY as int) * m * vstd::math::abs(delta_x(pi, pj)) * (FX_CUBED as int) <= u128::MAX as int
        && (GRAVITY as int) * m * vstd::math::abs(delta_y(pi, pj)) * (FX_CUBED as int)
        <= u128::MAX as int && kick_mag(delta_x(pi, pj), m, d3) <= i64::MAX as int && kick_mag(
        delta_y(pi, pj),
        m,
        d3,
    ) <= i64::MAX as int
}

/// Two quotients of a common factor, cross-scaled by the two multipliers,
/// cancel up to one truncation error per multiplier.
proof fn lemma_quot_balance(m1: int, m2: int, c: int, d: int)
    requires
        m1 >= 0,
        m2 >= 0,
        c >= 0,
        d >= 1,
    ensures
        vstd::math::abs(m1 * ((m2 * c) / d) - m2 * ((m1 * c) / d)) <= m1 + m2,
{
    let q1: int = (m2 * c) / d;
    let r1: int = (m2 * c) % d;
    let q2: int = (m1 * c) / d;
    let r2: int = (m1 * c) % d;
    lemma_fundamental_div_mod(m2 * c, d);
    lemma_fundamental_div_mod(m1 * c, d);
    lemma_mod_bound(m2 * c, d);
    lemma_mod_bound(m1 * c, d);
    assert(-(m1 + m2) <= m1 * q1 - m2 * q2 <= m1 + m2) by (nonlinear_arith)
        requires
            d * q1 + r1 == m2 * c,
            d * q2 + r2 == m1 * c,
            0 <= r1 < d,
            0 <= r2 < d,
            d >= 1,
            m1 >= 0,
            m2 >= 0;
}

/// Newton's third law at machine precision: for any pair of bodies, the
/// acceleration kicks scaled by the two masses cancel componentwise up to
/// the truncation of the pair's two divisions — at most one raw step per
/// unit of mass, i.e. `(mi + mj) / FX` in mass-weighted world units.
pub proof fn lemma_newton_third_law(pi: Vec2Fx, pj: Vec2Fx, mi: u64, mj: u64)
    requires
        kick_unsaturated(pi, pj, mi),
        kick_unsaturated(pi, pj, mj),
    ensures
        vstd::math::abs(
            mi * kick_first(pi, pj, mj).0 + mj * kick_second(pi, pj, mi).0,
        ) <= mi + mj,
        vstd::math::abs(
            mi * kick_first(pi, pj, mj).1 + mj * kick_second(pi, pj, mi).1,
        ) <= mi + mj,
{
    let dx: int = delta_x(pi, pj);
    let dy: int = delta_y(pi, pj);
    if dist(pi, pj) > DIST_CAP as int {
        assert((mi as int) * 0 == 0) by (nonlinear_arith);
        assert((mj as int) * 0 == 0) by (nonlinear_arith);
    } else {
        let d3: int = dist_cubed(pi, pj);
        assert(d3 >= 1) by {
            let d: int = dist(pi, pj);
            if d >= 1 {
                assert(d * d * d >= 1) by (nonlinear_arith)
                    requires
                        d >= 1;
            }
        };
        lemma_kick_component(dx, mi, mj, d3);
        lemma_kick_component(dy, mi, mj, d3);
    }
}

/// One component of the third-law bound: the signed, truncated kicks of a
/// pair, scaled by the two masses, cancel up to `mi + mj` raw steps.
proof fn lemma_kick_component(e: int, mi: u64, mj: u64, d3: int)
    requires
        d3 >= 1,
        (GRAVITY as int) * mi * vstd::math::abs(e) * (FX_CUBED as int) <= u128::MAX as int,
        (GRAVITY as int) * mj * vstd::math::abs(e) * (FX_CUBED as int) <= u128::MAX as int,
        kick_mag(e, mi, d3) <= i64::MAX as int,
        kick_mag(e, mj, d3) <= i64::MAX as int,
    ensures
        vstd::math::abs(
            mi * (if e < 0 { crate::fxp::i64_sat(-kick_mag(e, mj, d3)) } else { crate::fxp::i64_sat(kick_mag(e, mj, d3)) })
            + mj * (if e < 0 { crate::fxp::i64_sat(kick_mag(e, mi, d3)) } else { crate::fxp::i64_sat(-kick_mag(e, mi, d3)) }),
        ) <= mi + mj,
{
    let a: int = vstd::math::abs(e) as int;
    let c: int = (GRAVITY as int) * a * (FX_CUBED as int);
    assert((GRAVITY as int) * (mj as int) * a * (FX_CUBED as int) == (mj as int) * c
        && (GRAVITY as int) * (mi as int) * a * (FX_CUBED as int) == (mi as int) * c
        && c >= 0 && (mj as int) * c >= 0 && (mi as int) * c >= 0) by (nonlinear_arith)
        requires
            a >= 0,
            c == (GRAVITY as int) * a * (FX_CUBED as int),
            GRAVITY as int == 10,
            FX_CUBED as int > 0,
            mi as int >= 0,
            mj as int >= 0;
    let qj: int = ((mj as int) * c) / d3;
    let qi: int = ((mi as int) * c) / d3;
    assert(kick_mag(e, mj, d3) == qj);
    assert(kick_mag(e, mi, d3) == qi);
    vstd::arithmetic::div_mod::lemma_div_pos_is_pos((mj as int) * c, d3);
    vstd::arithmetic::div_mod::lemma_div_pos_is_pos((mi as int) * c, d3);
    lemma_quot_balance(mi as int, mj as int, c, d3);
    assert((mi as int) * (-qj) + (mj as int) * qi == -((mi as int) * qj - (mj as int) * qi)
        && (mi as int) * qj + (mj as int) * (-qi) == (mi as int) * qj - (mj as int) * qi)
        by (nonlinear_arith);
}

/// No body of the system is static.
pub open spec fn no_static(o: Seq<Body>) -> bool {
    forall|k: int| 0 <= k < o.len() ==> !(#[trigger] o[k]).is_static
}

/// The pair of bodies at indices `a < b` keeps its kick arithmetic inside
/// the machine range, for both masses.
pub open spec fn pair_unsaturated_at(o: Seq<Body>, a: int, b: int) -> bool {
    kick_unsaturated(o[a].position, o[b].position, o[a].mass.0) && kick_unsaturated(
        o[a].position,
        o[b].position,
        o[b].mass.0,
    )
}

/// Every pair of the system keeps its kick arithmetic inside the machine
/// range, for both masses.
pub open spec fn all_pairs_unsaturated(o: Seq<Body>) -> bool {
    forall|a: int, b: int| 0 <= a < b < o.len() ==> #[trigger] pair_unsaturated_at(o, a, b)
}

/// Total x-momentum of the bodies below index `p`: the sum of
/// `mass * velocity.x`.
pub open spec fn momentum_x(o: Seq<Body>, p: int) -> int
    decreases p,
{
    if p <= 0 {
        0
    } else {
        momentum_x(o, p - 1) + o[p - 1].mass.0 * o[p - 1].velocity.0.x
    }
}

/// Total y-momentum of the bodies below index `p`.
pub open spec fn momentum_y(o: Seq<Body>, p: int) -> int
    decreases p,
{
    if p <= 0 {
        0
    } else {
        momentum_y(o, p - 1) + o[p - 1].mass.0 * o[p - 1].velocity.0.y
    }
}

/// Sum over bodies below `c` of `mass * sum_kick_x(o, k, p)`.
spec fn psum_x(o: Seq<Body>, p: int, c: int) -> int
    decreases c,
{
    if c <= 0 {
        0
    } else {
        psum_x(o, p, c - 1) + o[c - 1].mass.0 * sum_kick_x(o, c - 1, p)
    }
}

/// Sum over bodies below `c` of `mass * sum_kick_y(o, k, p)`.
spec fn psum_y(o: Seq<Body>, p: int, c: int) -> int
    decreases c,
{
    if c <= 0 {
        0
    } else {
        psum_y(o, p, c - 1) + o[c - 1].mass.0 * sum_kick_y(o, c - 1, p)
    }
}

/// Sum over bodies below `c` of `mass_k * kick_on(o, k, p).x`.
spec fn kcol1_x(o: Seq<Body>, p: int, c: int) -> int
    decreases c,
{
    if c <= 0 {
        0
    } else {
        kcol1_x(o, p, c - 1) + o[c - 1].mass.0 * kick_on(o, c - 1, p).0
    }
}

/// Sum over bodies below `c` of `mass_k * kick_on(o, k, p).y`.
spec fn kcol1_y(o: Seq<Body>, p: int, c: int) -> int
    decreases c,
{
    if c <= 0 {
        0
    } else {
        kcol1_y(o, p, c - 1) + o[c - 1].mass.0 * kick_on(o, c - 1, p).1
    }
}

/// Sum over bodies below `c` of `mass_p * kick_on(o, p, k).x`.
spec fn kcol2_x(o: Seq<Body>, p: int, c: int) -> int
    decreases c,
{
    if c <= 0 {
        0
    } else {
        kcol2_x(o, p, c - 1) + o[p].mass.0 * kick_on(o, p, c - 1).0
    }
}

/// Sum over bodies below `c` of `mass_p * kick_on(o, p, k).y`.
spec fn kcol2_y(o: Seq<Body>, p: int, c: int) -> int
    decreases c,
{
    if c <= 0 {
        0
    } else {
        kcol2_y(o, p, c - 1) + o[p].mass.0 * kick_on(o, p, c - 1).1
    }
}

/// Sum over bodies below `c` of `mass_k + mass_p`: the truncation slack of
/// the pairs that involve body `p`.
pub open spec fn pair_slack(o: Seq<Body>, p: int, c: int) -> int
    decreases c,
{
    if c <= 0 {
        0
    } else {
        pair_slack(o, p, c - 1) + o[c - 1].mass.0 + o[p].mass.0
    }
}

/// The total truncation slack of the accumulation phase: the sum of
/// `mass_i + mass_j` over every unordered pair, in raw steps.
pub open spec fn momentum_slack(o: Seq<Body>, p: int) -> int
    decreases p,
{
    if p <= 0 {
        0
    } else {
        momentum_slack(o, p - 1) + pair_slack(o, p - 1, p - 1)
    }
}

/// Scaling a kick sum by the body's mass distributes over the partners.
proof fn lemma_mass_distributes(o: Seq<Body>, p: int, c: int)
    requires
        0 <= c <= p,
    ensures
        o[p].mass.0 * sum_kick_x(o, p, c) == kcol2_x(o, p, c),
        o[p].mass.0 * sum_kick_y(o, p, c) == kcol2_y(o, p, c),
    decreases c,
{
    let m: int = o[p].mass.0 as int;
    if c <= 0 {
        assert(m * 0 == 0) by (nonlinear_arith);
    } else {
        lemma_mass_distributes(o, p, c - 1);
        assert(m * (sum_kick_x(o, p, c - 1) + kick_on(o, p, c - 1).0) == m * sum_kick_x(
            o,
            p,
            c - 1,
        ) + m * kick_on(o, p, c - 1).0) by (nonlinear_arith);
        assert(m * (sum_kick_y(o, p, c - 1) + kick_on(o, p, c - 1).1) == m * sum_kick_y(
            o,
            p,
            c - 1,
        ) + m * kick_on(o, p, c - 1).1) by (nonlinear_arith);
    }
}

/// Extending every kick sum from `p` partners to `p + 1` adds one column
/// of mass-scaled kicks.
proof fn lemma_psum_step(o: Seq<Body>, p: int, c: int)
    requires
        0 <= c <= p,
    ensures
        psum_x(o, p + 1, c) == psum_x(o, p, c) + kcol1_x(o, p, c),
        psum_y(o, p + 1, c) == psum_y(o, p, c) + kcol1_y(o, p, c),
    decreases c,
{
    if c > 0 {
        lemma_psum_step(o, p, c - 1);
        let m: int = o[c - 1].mass.0 as int;
        assert(sum_kick_x(o, c - 1, p + 1) == sum_kick_x(o, c - 1, p) + kick_on(o, c - 1, p).0);
        assert(sum_kick_y(o, c - 1, p + 1) == sum_kick_y(o, c - 1, p) + kick_on(o, c - 1, p).1);
        assert(m * (sum_kick_x(o, c - 1, p) + kick_on(o, c - 1, p).0) == m * sum_kick_x(
            o,
            c - 1,
            p,
        ) + m * kick_on(o, c - 1, p).0) by (nonlinear_arith);
        assert(m * (sum_kick_y(o, c - 1, p) + kick_on(o, c - 1, p).1) == m * sum_kick_y(
            o,
            c - 1,
            p,
        ) + m * kick_on(o, c - 1, p).1) by (nonlinear_arith);
    }
}

/// The two columns of pair `p` cancel up to the pair slack: Newton's third
/// law summed over the partners below `c`.
proof fn lemma_columns_cancel(o: Seq<Body>, p: int, c: int)
    requires
        0 <= c <= p < o.len(),
        all_pairs_unsaturated(o),
    ensures
        vstd::math::abs(kcol1_x(o, p, c) + kcol2_x(o, p, c)) <= pair_slack(o, p, c),
        vstd::math::abs(kcol1_y(o, p, c) + kcol2_y(o, p, c)) <= pair_slack(o, p, c),
        pair_slack(o, p, c) >= 0,
    decreases c,
{
    if c > 0 {
        lemma_columns_cancel(o, p, c - 1);
        let k: int = c - 1;
        assert(0 <= k < p < o.len());
        assert(pair_unsaturated_at(o, k, p));
        lemma_newton_third_law(o[k].position, o[p].position, o[k].mass.0, o[p].mass.0);
        assert(kick_on(o, k, p).0 == kick_first(o[k].position, o[p].position, o[p].mass.0).0);
        assert(kick_on(o, p, k).0 == kick_second(o[k].position, o[p].position, o[k].mass.0).0);
        assert(kick_on(o, k, p).1 == kick_first(o[k].position, o[p].position, o[p].mass.0).1);
        assert(kick_on(o, p, k).1 == kick_second(o[k].position, o[p].position, o[k].mass.0).1);
    }
}

/// The mass-weighted total of all kicks is bounded by the total slack.
proof fn lemma_total_kicks_bounded(o: Seq<Body>, p: int)
    requires
        0 <= p <= o.len(),
        all_pairs_unsaturated(o),
    ensures
        vstd::math::abs(psum_x(o, p, p)) <= momentum_slack(o, p),
        vstd::math::abs(psum_y(o, p, p)) <= momentum_slack(o, p),
        momentum_slack(o, p) >= 0,
    decreases p,
{
    if p > 0 {
        lemma_total_kicks_bounded(o, p - 1);
        lemma_psum_step(o, p - 1, p - 1);
        lemma_mass_distributes(o, p - 1, p - 1);
        lemma_columns_cancel(o, p - 1, p - 1);
        assert(sum_kick_x(o, p - 1, p) == sum_kick_x(o, p - 1, p - 1));
        assert(sum_kick_y(o, p - 1, p) == sum_kick_y(o, p - 1, p - 1));
        assert(psum_x(o, p, p) == psum_x(o, p, p - 1) + o[p - 1].mass.0 * sum_kick_x(
            o,
            p - 1,
            p,
        ));
        assert(psum_y(o, p, p) == psum_y(o, p, p - 1) + o[p - 1].mass.0 * sum_kick_y(
            o,
            p - 1,
            p,
        ));
    }
}

/// The momentum after the velocity phase splits into the old momentum plus
/// the mass-weighted kicks.
proof fn lemma_momentum_splits(o: Seq<Body>, s1: Seq<Body>, s2: Seq<Body>, p: int)
    requires
        o.len() == s1.len(),
        s1.len() == s2.len(),
        0 <= p <= o.len(),
        no_static(o),
        forall|k: int| 0 <= k < o.len() ==> frame_eq(#[trigger] s1[k], o[k]),
        forall|k: int|
            0 <= k < o.len() ==> (#[trigger] s1[k]).acceleration.0.x as int == sum_kick_x(
                o,
                k,
                o.len() as int,
            ) && s1[k].acceleration.0.y as int == sum_kick_y(o, k, o.len() as int),
        forall|k: int| 0 <= k < o.len() ==> #[trigger] s2[k] == vel_phase_body(s1[k]),
        forall|k: int|
            0 <= k < o.len() ==> i64::MIN as int <= (#[trigger] o[k]).velocity.0.x + sum_kick_x(
                o,
                k,
                o.len() as int,
            ) <= i64::MAX as int && i64::MIN as int <= o[k].velocity.0.y + sum_kick_y(
                o,
                k,
                o.len() as int,
            ) <= i64::MAX as int,
    ensures
        momentum_x(s2, p) == momentum_x(o, p) + psum_x(o, o.len() as int, p),
        momentum_y(s2, p) == momentum_y(o, p) + psum_y(o, o.len() as int, p),
    decreases p,
{
    if p > 0 {
        lemma_momentum_splits(o, s1, s2, p - 1);
        let k: int = p - 1;
        let m: int = o[k].mass.0 as int;
        assert(s2[k].velocity.0.x as int == o[k].velocity.0.x + sum_kick_x(
            o,
            k,
            o.len() as int,
        ));
        assert(s2[k].velocity.0.y as int == o[k].velocity.0.y + sum_kick_y(
            o,
            k,
            o.len() as int,
        ));
        assert(m * (o[k].velocity.0.x + sum_kick_x(o, k, o.len() as int)) == m
            * o[k].velocity.0.x + m * sum_kick_x(o, k, o.len() as int)) by (nonlinear_arith);
        assert(m * (o[k].velocity.0.y + sum_kick_y(o, k, o.len() as int)) == m
            * o[k].velocity.0.y + m * sum_kick_y(o, k, o.len() as int)) by (nonlinear_arith);
    }
}

/// Momentum conservation up to truncation: with no static bodies, one
/// acceleration phase (from zeroed accumulators) followed by one velocity
/// phase changes the total momentum by at most the total truncation slack —
/// the sum of `mass_i + mass_j` over all pairs, in raw steps, i.e.
/// `(n - 1) * total_mass / FX` in mass-weighted world units.  `s1` is the
/// state after
/// accumulation, `s2` the state after the velocity update.
pub proof fn lemma_momentum_conserved(o: Seq<Body>, s1: Seq<Body>, s2: Seq<Body>)
    requires
        o.len() == s1.len(),
        s1.len() == s2.len(),
        no_static(o),
        all_pairs_unsaturated(o),
        forall|k: int| 0 <= k < o.len() ==> frame_eq(#[trigger] s1[k], o[k]),
        forall|k: int|
            0 <= k < o.len() ==> (#[trigger] s1[k]).acceleration.0.x as int == sum_kick_x(
                o,
                k,
                o.len() as int,
            ) && s1[k].acceleration.0.y as int == sum_kick_y(o, k, o.len() as int),
        forall|k: int| 0 <= k < o.len() ==> #[trigger] s2[k] == vel_phase_body(s1[k]),
        forall|k: int|
            0 <= k < o.len() ==> i64::MIN as int <= (#[trigger] o[k]).velocity.0.x + sum_kick_x(
                o,
                k,
                o.len() as int,
            ) <= i64::MAX as int && i64::MIN as int <= o[k].velocity.0.y + sum_kick_y(
                o,
                k,
                o.len() as int,
            ) <= i64::MAX as int,
    ensures
        vstd::math::abs(momentum_x(s2, s2.len() as int) - momentum_x(o, o.len() as int))
            <= momentum_slack(o, o.len() as int),
        vstd::math::abs(momentum_y(s2, s2.len() as int) - momentum_y(o, o.len() as int))
            <= momentum_slack(o, o.len() as int),
{
    let n: int = o.len() as int;
    lemma_momentum_splits(o, s1, s2, n);
    lemma_total_kicks_bounded(o, n);
}

} // verus!
