//! Signed 64-bit fixed-point arithmetic.
//!
//! A raw value `r: i64` stands for the real number `r / FX`.  All operations
//! saturate at the `i64` range instead of wrapping or panicking; the
//! saturation is part of each contract, stated through `i64_sat` and
//! `u128_sat`.  Integer square and cube roots carry exact floor contracts.

use vstd::prelude::*;

verus! {

/// Fixed-point scale: one world unit is `FX` raw steps.
pub const FX: i64 = 65536;

/// `FX * FX * FX` as an unsigned wide constant, used by the force computation.
pub const FX_CUBED: u128 = 281474976710656;

/// `FX * FX * FX * FX`, used by the radius derivation.
pub const FX_FOURTH: u128 = 18446744073709551616;

/// `2^64`: one more than the largest possible integer square root of a `u128`.
pub const SQRT_CAP: u128 = 18446744073709551616;

/// One more than the largest possible integer cube root of a `u128`.
pub const CBRT_CAP: u128 = 6981463658332;

/// Clamp a mathematical integer into the `i64` range.
pub open spec fn i64_sat(x: int) -> int {
    if x > i64::MAX as int {
        i64::MAX as int
    } else if x < i64::MIN as int {
        i64::MIN as int
    } else {
        x
    }
}

/// Clamp a mathematical integer into the `u128` range.
pub open spec fn u128_sat(x: int) -> int {
    if x > u128::MAX as int {
        u128::MAX as int
    } else if x < 0 {
        0
    } else {
        x
    }
}

/// Division that truncates toward zero, for a positive divisor.
pub open spec fn tdiv(a: int, d: int) -> int
    recommends
        d > 0,
{
    if a >= 0 {
        a / d
    } else {
        -((-a) / d)
    }
}

/// Saturating conversion of a wide signed intermediate to `i64`.
pub fn sat_narrow(x: i128) -> (r: i64)
    ensures
        r as int == i64_sat(x as int),
{
    if x > i64::MAX as i128 {
        i64::MAX
    } else if x < i64::MIN as i128 {
        i64::MIN
    } else {
        x as i64
    }
}

/// Saturating addition of raw fixed-point values.
pub fn sat_add(a: i64, b: i64) -> (r: i64)
    ensures
        r as int == i64_sat(a as int + b as int),
{
    sat_narrow(a as i128 + b as i128)
}

/// Magnitude of a raw value, as an unsigned wide integer.
pub fn magnitude(x: i64) -> (r: u128)
    ensures
        r as int == vstd::math::abs(x as int),
{
    if x >= 0 {
        x as u128
    } else {
        (-(x as i128)) as u128
    }
}

/// Saturating conversion of a sign and a magnitude to `i64`.
pub fn sat_signed(neg: bool, mag: u128) -> (r: i64)
    ensures
        r as int == i64_sat(if neg { -(mag as int) } else { mag as int }),
{
    if neg {
        if mag >= 9223372036854775808 {
            i64::MIN
        } else {
            -(mag as i64)
        }
    } else {
        if mag > i64::MAX as u128 {
            i64::MAX
        } else {
            mag as i64
        }
    }
}

/// Saturating multiplication of unsigned wide values.
pub fn mul_sat(a: u128, b: u128) -> (r: u128)
    ensures
        r as int == u128_sat((a as int) * (b as int)),
{
    if a == 0 {
        0
    } else if b <= u128::MAX / a {
        proof {
            let q: int = u128::MAX as int / a as int;
            let m: int = u128::MAX as int % a as int;
            vstd::arithmetic::div_mod::lemma_fundamental_div_mod(u128::MAX as int, a as int);
            assert((a as int) * (b as int) <= u128::MAX as int) by (nonlinear_arith)
                requires
                    (b as int) <= q,
                    (a as int) * q + m == u128::MAX as int,
                    m >= 0,
                    (a as int) >= 1;
        }
        a * b
    } else {
        proof {
            let q: int = u128::MAX as int / a as int;
            let m: int = u128::MAX as int % a as int;
            vstd::arithmetic::div_mod::lemma_fundamental_div_mod(u128::MAX as int, a as int);
            assert((a as int) * (b as int) > u128::MAX as int) by (nonlinear_arith)
                requires
                    (b as int) >= q + 1,
                    (a as int) * q + m == u128::MAX as int,
                    m < (a as int),
                    (a as int) >= 1;
        }
        u128::MAX
    }
}

/// Saturating a wide product before a further multiplication loses nothing:
/// the composed clamp equals the clamp of the full product.
pub proof fn lemma_mul_sat_chain(x: int, y: int)
    requires
        x >= 0,
        y >= 0,
    ensures
        u128_sat(u128_sat(x) * y) == u128_sat(x * y),
{
    if x > u128::MAX as int {
        if y == 0 {
            assert(u128_sat(x) * y == 0) by (nonlinear_arith)
                requires
                    y == 0;
            assert(x * y == 0) by (nonlinear_arith)
                requires
                    y == 0;
        } else {
            assert(x * y >= x) by (nonlinear_arith)
                requires
                    x >= 0,
                    y >= 1;
            assert(u128_sat(x) * y >= u128_sat(x)) by (nonlinear_arith)
                requires
                    u128_sat(x) >= 0,
                    y >= 1;
        }
    }
}

/// `(a * b) / d`, truncating toward zero, saturated to `i64`; `d` positive.
pub fn mul_div_trunc(a: i64, b: i64, d: i64) -> (r: i64)
    requires
        d >= 1,
    ensures
        r as int == i64_sat(tdiv((a as int) * (b as int), d as int)),
{
    proof {
        assert(-(i128::MAX as int) <= (a as int) * (b as int)
            && (a as int) * (b as int) <= i128::MAX as int) by (nonlinear_arith)
            requires
                i64::MIN as int <= a as int,
                a as int <= i64::MAX as int,
                i64::MIN as int <= b as int,
                b as int <= i64::MAX as int;
    }
    let p: i128 = a as i128 * b as i128;
    let neg: bool = p < 0;
    let mag: u128 = if neg {
        (-p) as u128
    } else {
        p as u128
    };
    let q: u128 = mag / (d as u128);
    sat_signed(neg, q)
}

/// The integer square-root floor, defined by counting up.
pub open spec fn sqrt_floor(n: int) -> int
    decreases n,
{
    if n <= 0 {
        0
    } else {
        let p: int = sqrt_floor(n - 1);
        if (p + 1) * (p + 1) <= n {
            p + 1
        } else {
            p
        }
    }
}

/// `sqrt_floor(n)` is the greatest integer whose square is at most `n`.
pub proof fn lemma_sqrt_floor(n: int)
    requires
        n >= 0,
    ensures
        sqrt_floor(n) >= 0,
        sqrt_floor(n) * sqrt_floor(n) <= n,
        n < (sqrt_floor(n) + 1) * (sqrt_floor(n) + 1),
    decreases n,
{
    if n == 0 {
    } else {
        lemma_sqrt_floor(n - 1);
        let p: int = sqrt_floor(n - 1);
        if (p + 1) * (p + 1) <= n {
            assert((p + 1) * (p + 1) + 1 <= (p + 2) * (p + 2)) by (nonlinear_arith)
                requires
                    p >= 0;
        }
    }
}

/// Any integer square-root witness equals `sqrt_floor`.
pub proof fn lemma_sqrt_floor_unique(n: int, r: int)
    requires
        n >= 0,
        r >= 0,
        r * r <= n,
        n < (r + 1) * (r + 1),
    ensures
        r == sqrt_floor(n),
{
    lemma_sqrt_floor(n);
    let s: int = sqrt_floor(n);
    if r < s {
        assert((r + 1) * (r + 1) <= s * s) by (nonlinear_arith)
            requires
                0 <= r + 1,
                r + 1 <= s;
    }
    if s < r {
        assert((s + 1) * (s + 1) <= r * r) by (nonlinear_arith)
            requires
                0 <= s + 1,
                s + 1 <= r;
    }
}

/// Integer square root by bisection.
pub fn isqrt(n: u128) -> (r: u128)
    ensures
        r as int == sqrt_floor(n as int),
        r < SQRT_CAP,
{
    let mut lo: u128 = 0;
    let mut hi: u128 = SQRT_CAP;
    proof {
        assert((SQRT_CAP as int) * (SQRT_CAP as int) == u128::MAX as int + 1)
            by (nonlinear_arith);
    }
    while lo + 1 < hi
        invariant
            lo < hi,
            hi <= SQRT_CAP,
            (lo as int) * (lo as int) <= n as int,
            (n as int) < (hi as int) * (hi as int),
        decreases hi - lo,
    {
        let mid: u128 = lo + (hi - lo) / 2;
        proof {
            assert((mid as int) * (mid as int) <= u128::MAX as int) by (nonlinear_arith)
                requires
                    0 <= mid as int,
                    mid as int <= (SQRT_CAP as int) - 1;
        }
        if mid * mid <= n {
            lo = mid;
        } else {
            hi = mid;
        }
    }
    proof {
        lemma_sqrt_floor_unique(n as int, lo as int);
    }
    lo
}

/// The integer cube-root floor, defined by counting up.
pub open spec fn cbrt_floor(n: int) -> int
    decreases n,
{
    if n <= 0 {
        0
    } else {
        let p: int = cbrt_floor(n - 1);
        if (p + 1) * (p + 1) * (p + 1) <= n {
            p + 1
        } else {
            p
        }
    }
}

/// `cbrt_floor(n)` is the greatest integer whose cube is at most `n`.
pub proof fn lemma_cbrt_floor(n: int)
    requires
        n >= 0,
    ensures
        cbrt_floor(n) >= 0,
        cbrt_floor(n) * cbrt_floor(n) * cbrt_floor(n) <= n,
        n < (cbrt_floor(n) + 1) * (cbrt_floor(n) + 1) * (cbrt_floor(n) + 1),
    decreases n,
{
    if n == 0 {
    } else {
        lemma_cbrt_floor(n - 1);
        let p: int = cbrt_floor(n - 1);
        if (p + 1) * (p + 1) * (p + 1) <= n {
            assert((p + 1) * (p + 1) * (p + 1) + 1 <= (p + 2) * (p + 2) * (p + 2))
                by (nonlinear_arith)
                requires
                    p >= 0;
        }
    }
}

/// Any integer cube-root witness equals `cbrt_floor`.
pub proof fn lemma_cbrt_floor_unique(n: int, r: int)
    requires
        n >= 0,
        r >= 0,
        r * r * r <= n,
        n < (r + 1) * (r + 1) * (r + 1),
    ensures
        r == cbrt_floor(n),
{
    lemma_cbrt_floor(n);
    let s: int = cbrt_floor(n);
    if r < s {
        assert((r + 1) * (r + 1) * (r + 1) <= s * s * s) by (nonlinear_arith)
            requires
                0 <= r + 1,
                r + 1 <= s;
    }
    if s < r {
        assert((s + 1) * (s + 1) * (s + 1) <= r * r * r) by (nonlinear_arith)
            requires
                0 <= s + 1,
                s + 1 <= r;
    }
}

/// Integer cube root by bisection.
pub fn icbrt(n: u128) -> (r: u128)
    ensures
        r as int == cbrt_floor(n as int),
        r < CBRT_CAP,
{
    let mut lo: u128 = 0;
    let mut hi: u128 = CBRT_CAP;
    proof {
        assert((u128::MAX as int) < (CBRT_CAP as int) * (CBRT_CAP as int) * (CBRT_CAP as int))
            by (nonlinear_arith);
    }
    while lo + 1 < hi
        invariant
            lo < hi,
            hi <= CBRT_CAP,
            (lo as int) * (lo as int) * (lo as int) <= n as int,
            (n as int) < (hi as int) * (hi as int) * (hi as int),
        decreases hi - lo,
    {
        let mid: u128 = lo + (hi - lo) / 2;
        proof {
            assert((mid as int) * (mid as int) <= u128::MAX as int
                && (mid as int) * (mid as int) * (mid as int) <= u128::MAX as int)
                by (nonlinear_arith)
                requires
                    0 <= mid as int,
                    mid as int <= (CBRT_CAP as int) - 1;
        }
        if mid * mid * mid <= n {
            lo = mid;
        } else {
            hi = mid;
        }
    }
    proof {
        lemma_cbrt_floor_unique(n as int, lo as int);
    }
    lo
}

} // verus!
