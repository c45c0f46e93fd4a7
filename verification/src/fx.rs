//! Fixed-point scalar arithmetic.
//!
//! A fixed-point value `v: i64` stands for the real number `v / FP`.
//! The two division flavours used throughout the pipeline are defined here
//! as spec functions over `int`, together with executable forms on `i128`
//! whose results are proved equal to the spec definitions:
//!
//! - `rdiv(a, b)`: rounding division, nearest integer with ties away from
//!   zero (the rounding used for interpolated values and matrix entries);
//! - `tdiv(a, b)`: truncating division toward zero (the rounding used when
//!   projecting to integer canvas coordinates).

use vstd::prelude::*;
use vstd::arithmetic::div_mod::lemma_fundamental_div_mod;
use vstd::arithmetic::div_mod::lemma_hoist_over_denominator;

verus! {

/// Number of fixed-point units per 1.0.
pub const FP: i64 = 65536;

/// Division of `a` by `b > 0`, rounded to the nearest integer,
/// ties away from zero.
pub open spec fn rdiv(a: int, b: int) -> int {
    if a >= 0 {
        (2 * a + b) / (2 * b)
    } else {
        -((2 * -a + b) / (2 * b))
    }
}

/// Division of `a` by `b > 0`, truncated toward zero.
pub open spec fn tdiv(a: int, b: int) -> int {
    if a >= 0 {
        a / b
    } else {
        -(-a / b)
    }
}

/// For nonnegative `a` and positive `b`, `(2a + b) / (2b)` is the floor
/// quotient bumped by one exactly when the remainder is at least half of `b`.
proof fn lemma_round_from_floor(a: int, b: int)
    requires
        a >= 0,
        b > 0,
    ensures
        rdiv(a, b) == if 2 * (a % b) >= b { a / b + 1 } else { a / b },
{
    let q = a / b;
    let r = a % b;
    lemma_fundamental_div_mod(a, b);
    assert(a == q * b + r);
    assert(0 <= r < b);
    assert(2 * a + b == (2 * r + b) + q * (2 * b)) by {
        assert(2 * (q * b + r) + b == (2 * r + b) + q * (2 * b)) by (nonlinear_arith);
    }
    lemma_hoist_over_denominator(2 * r + b, q, (2 * b) as nat);
    assert((2 * a + b) / (2 * b) == q + (2 * r + b) / (2 * b));
    if 2 * r >= b {
        // 2r + b lies in [2b, 4b): quotient 1.
        lemma_hoist_over_denominator(2 * r - b, 1, (2 * b) as nat);
        assert((2 * r + b) / (2 * b) == (2 * r - b) / (2 * b) + 1);
        assert(0 <= 2 * r - b < 2 * b);
        assert((2 * r - b) / (2 * b) == 0) by {
            vstd::arithmetic::div_mod::lemma_basic_div(2 * r - b, 2 * b);
        }
    } else {
        // 2r + b lies in [b, 2b): quotient 0.
        assert(0 <= 2 * r + b < 2 * b);
        assert((2 * r + b) / (2 * b) == 0) by {
            vstd::arithmetic::div_mod::lemma_basic_div(2 * r + b, 2 * b);
        }
    }
}

/// Rounding division agrees with exact division on multiples.
pub proof fn lemma_rdiv_exact(k: int, b: int)
    requires
        b > 0,
    ensures
        rdiv(k * b, b) == k,
{
    if k >= 0 {
        assert(k * b >= 0) by (nonlinear_arith)
            requires
                k >= 0,
                b > 0,
        ;
        lemma_round_from_floor(k * b, b);
        vstd::arithmetic::div_mod::lemma_mod_multiples_basic(k, b);
        assert((k * b) % b == 0);
        assert((k * b) / b == k) by {
            vstd::arithmetic::div_mod::lemma_div_by_multiple(k, b);
        }
    } else {
        assert(k * b < 0 && -(k * b) == (-k) * b) by (nonlinear_arith)
            requires
                k < 0,
                b > 0,
        ;
        lemma_round_from_floor((-k) * b, b);
        vstd::arithmetic::div_mod::lemma_mod_multiples_basic(-k, b);
        assert(((-k) * b) / b == -k) by {
            vstd::arithmetic::div_mod::lemma_div_by_multiple(-k, b);
        }
        assert(rdiv(k * b, b) == -rdiv((-k) * b, b));
    }
}

/// The rounded quotient differs from the exact quotient by at most half a
/// unit: `|rdiv(a, b) * b - a| * 2 <= b`.
pub proof fn lemma_rdiv_error(a: int, b: int)
    requires
        b > 0,
    ensures
        2 * (rdiv(a, b) * b - a) <= b,
        2 * (a - rdiv(a, b) * b) <= b,
{
    if a >= 0 {
        lemma_round_from_floor(a, b);
        lemma_fundamental_div_mod(a, b);
        let q = a / b;
        let r = a % b;
        if 2 * r >= b {
            assert(rdiv(a, b) == q + 1);
            assert((q + 1) * b - a == b - r) by (nonlinear_arith)
                requires
                    a == b * q + r,
            ;
        } else {
            assert(rdiv(a, b) == q);
            assert(a - q * b == r) by (nonlinear_arith)
                requires
                    a == b * q + r,
            ;
        }
    } else {
        lemma_round_from_floor(-a, b);
        lemma_fundamental_div_mod(-a, b);
        let q = (-a) / b;
        let r = (-a) % b;
        if 2 * r >= b {
            assert(rdiv(a, b) == -(q + 1));
            assert(a - (-(q + 1)) * b == b - r) by (nonlinear_arith)
                requires
                    -a == b * q + r,
            ;
        } else {
            assert(rdiv(a, b) == -q);
            assert((-q) * b - a == r) by (nonlinear_arith)
                requires
                    -a == b * q + r,
            ;
        }
    }
}

/// A bound on the numerator yields the matching bound on the rounded
/// quotient: `|a| <= m * b` implies `|rdiv(a, b)| <= m`.
pub proof fn lemma_rdiv_bound(a: int, b: int, m: int)
    requires
        b > 0,
        m >= 0,
        -(m * b) <= a <= m * b,
    ensures
        -m <= rdiv(a, b) <= m,
{
    lemma_rdiv_error(a, b);
    let q = rdiv(a, b);
    assert(2 * (q * b) <= 2 * a + b && 2 * a - b <= 2 * (q * b));
    assert(q <= m) by (nonlinear_arith)
        requires
            b > 0,
            2 * (q * b) <= 2 * a + b,
            a <= m * b,
    ;
    assert(-m <= q) by (nonlinear_arith)
        requires
            b > 0,
            2 * a - b <= 2 * (q * b),
            -(m * b) <= a,
    ;
}

/// Rounding division is monotone in the numerator.
pub proof fn lemma_rdiv_mono(a1: int, a2: int, b: int)
    requires
        b > 0,
        a1 <= a2,
    ensures
        rdiv(a1, b) <= rdiv(a2, b),
{
    if a1 < a2 {
        lemma_rdiv_error(a1, b);
        lemma_rdiv_error(a2, b);
        let q1 = rdiv(a1, b);
        let q2 = rdiv(a2, b);
        assert(q1 <= q2) by (nonlinear_arith)
            requires
                b > 0,
                a1 < a2,
                2 * (q1 * b - a1) <= b,
                2 * (a2 - q2 * b) <= b,
        ;
    }
}

/// Product of two bounded `i128` values; the bound keeps any sum of two
/// such products inside `i128`.
pub fn mul_i128(a: i128, b: i128) -> (r: i128)
    requires
        -0x4000_0000_0000_0000 <= a <= 0x4000_0000_0000_0000,
        -0x4000_0000_0000_0000 <= b <= 0x4000_0000_0000_0000,
    ensures
        r == a * b,
        -0x1000_0000_0000_0000_0000_0000_0000_0000 <= r <= 0x1000_0000_0000_0000_0000_0000_0000_0000,
{
    proof {
        assert(-0x1000_0000_0000_0000_0000_0000_0000_0000 <= a as int * b as int
            <= 0x1000_0000_0000_0000_0000_0000_0000_0000) by (nonlinear_arith)
            requires
                -0x4000_0000_0000_0000 <= a <= 0x4000_0000_0000_0000,
                -0x4000_0000_0000_0000 <= b <= 0x4000_0000_0000_0000,
        ;
    }
    a * b
}

/// Floor quotient and remainder of a nonnegative `u128` pair, the building
/// block of the executable division helpers.
fn floor_div_rem_u128(a: u128, b: u128) -> (qr: (u128, u128))
    requires
        b > 0,
    ensures
        qr.0 == a as int / b as int,
        qr.1 == a as int % b as int,
{
    let q: u128 = a / b;
    let rem: u128 = a % b;
    (q, rem)
}

/// Executable rounding division on `i128`, equal to the spec `rdiv`.
pub fn rdiv_i128(a: i128, b: i128) -> (r: i128)
    requires
        0 < b,
        -0x2000_0000_0000_0000_0000_0000_0000_0000 < a < 0x2000_0000_0000_0000_0000_0000_0000_0000,
        b < 0x2000_0000_0000_0000_0000_0000_0000_0000,
    ensures
        r == rdiv(a as int, b as int),
{
    let ub: u128 = b as u128;
    if a >= 0 {
        let ua: u128 = a as u128;
        let (q, rem) = floor_div_rem_u128(ua, ub);
        proof {
            lemma_round_from_floor(a as int, b as int);
            vstd::arithmetic::div_mod::lemma_remainder_upper(ua as int, ub as int);
            vstd::arithmetic::div_mod::lemma_div_pos_is_pos(ua as int, ub as int);
            assert(q <= ua) by {
                vstd::arithmetic::div_mod::lemma_div_nonincreasing(ua as int, ub as int);
            }
        }
        if 2 * rem >= ub {
            (q + 1) as i128
        } else {
            q as i128
        }
    } else {
        let ua: u128 = (-a) as u128;
        let (q, rem) = floor_div_rem_u128(ua, ub);
        proof {
            lemma_round_from_floor(-a as int, b as int);
            vstd::arithmetic::div_mod::lemma_div_pos_is_pos(ua as int, ub as int);
            assert(q <= ua) by {
                vstd::arithmetic::div_mod::lemma_div_nonincreasing(ua as int, ub as int);
            }
        }
        if 2 * rem >= ub {
            -((q + 1) as i128)
        } else {
            -(q as i128)
        }
    }
}

/// Executable truncating division on `i128`, equal to the spec `tdiv`.
pub fn tdiv_i128(a: i128, b: i128) -> (r: i128)
    requires
        0 < b,
        -0x2000_0000_0000_0000_0000_0000_0000_0000 < a < 0x2000_0000_0000_0000_0000_0000_0000_0000,
        b < 0x2000_0000_0000_0000_0000_0000_0000_0000,
    ensures
        r == tdiv(a as int, b as int),
{
    let ub: u128 = b as u128;
    if a >= 0 {
        let ua: u128 = a as u128;
        let (q, _rem) = floor_div_rem_u128(ua, ub);
        proof {
            assert(q <= ua) by {
                vstd::arithmetic::div_mod::lemma_div_nonincreasing(ua as int, ub as int);
            }
            vstd::arithmetic::div_mod::lemma_div_pos_is_pos(ua as int, ub as int);
        }
        q as i128
    } else {
        let ua: u128 = (-a) as u128;
        let (q, _rem) = floor_div_rem_u128(ua, ub);
        proof {
            assert(q <= ua) by {
                vstd::arithmetic::div_mod::lemma_div_nonincreasing(ua as int, ub as int);
            }
            vstd::arithmetic::div_mod::lemma_div_pos_is_pos(ua as int, ub as int);
        }
        -(q as i128)
    }
}

/// The fixed-point product of `a` and `b`: `a * b / FP`, rounded to the
/// nearest unit, ties away from zero.
pub open spec fn fx_mul(a: int, b: int) -> int {
    rdiv(a * b, FP as int)
}

/// The fixed-point inverse of `z`: `FP * FP / z`, rounded to the nearest
/// unit, ties away from zero (meaningful for `z != 0`).
pub open spec fn fx_inv(z: int) -> int {
    if z >= 0 {
        rdiv(FP as int * FP as int, z)
    } else {
        -rdiv(FP as int * FP as int, -z)
    }
}

/// Executable fixed-point multiplication, equal to the spec `fx_mul`.
pub fn mul_fx(a: i64, b: i64) -> (r: i64)
    requires
        -0x40_0000_0000 <= a <= 0x40_0000_0000,
        -0x40_0000_0000 <= b <= 0x40_0000_0000,
    ensures
        r == fx_mul(a as int, b as int),
        -0x1000_0000_0000_0000 <= r <= 0x1000_0000_0000_0000,
{
    let p: i128 = mul_i128(a as i128, b as i128);
    proof {
        assert(-0x1000_0000_0000_0000_0000 <= p <= 0x1000_0000_0000_0000_0000) by (nonlinear_arith)
            requires
                p == a as int * b as int,
                -0x40_0000_0000 <= a <= 0x40_0000_0000,
                -0x40_0000_0000 <= b <= 0x40_0000_0000,
        ;
        assert(0x1000_0000_0000_0000_0000int == 0x1000_0000_0000_0000 * (FP as int));
        lemma_rdiv_bound(p as int, FP as int, 0x1000_0000_0000_0000);
    }
    let r: i128 = rdiv_i128(p, FP as i128);
    r as i64
}

/// Executable fixed-point inversion, equal to the spec `fx_inv`.
pub fn inv_fx(z: i64) -> (r: i64)
    requires
        z != 0,
        -0x4000_0000_0000_0000 <= z <= 0x4000_0000_0000_0000,
    ensures
        r == fx_inv(z as int),
        -0x1_0000_0000 <= r <= 0x1_0000_0000,
{
    proof {
        let zz = if z >= 0 { z as int } else { -z as int };
        assert(0x1_0000_0000int * zz >= 0x1_0000_0000) by (nonlinear_arith)
            requires
                zz >= 1,
        ;
        lemma_rdiv_bound(FP as int * FP as int, zz, 0x1_0000_0000);
    }
    if z > 0 {
        let r: i128 = rdiv_i128((FP as i128) * (FP as i128), z as i128);
        r as i64
    } else {
        let r: i128 = rdiv_i128((FP as i128) * (FP as i128), (-z) as i128);
        (-r) as i64
    }
}

} // verus!
