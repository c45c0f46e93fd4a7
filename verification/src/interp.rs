//! Linear interpolation with integer steps.
//!
//! Given endpoint pairs `(i0, d0)` and `(i1, d1)` with `i0 <= i1`, the
//! engine produces one dependent value for every integer `i` in
//! `i0 ..= i1`, each rounded to the nearest unit of the dependent value
//! (ties away from zero).  The dependent endpoints may be plain integers
//! (canvas coordinates) or fixed-point scalars (depths, shading weights);
//! the formula is the same in either unit.
//!
//! The slope of an interpolation can be compared against another without
//! consuming any values (`slope_lt`, `Interp::left_of`), which is how the
//! triangle fillers decide which edge chain bounds a scanline on the left.

use vstd::prelude::*;
use crate::fx::rdiv;
use crate::fx::rdiv_i128;
use crate::fx::mul_i128;
use crate::fx::lemma_rdiv_exact;
use crate::fx::lemma_rdiv_mono;

verus! {

/// Largest supported step count `i1 - i0`.
pub const INTERP_STEP_MAX: i64 = 0x100_0000;

/// Largest supported magnitude of an independent endpoint.
pub const INTERP_POS_MAX: i64 = 0x100_0000_0000;

/// Largest supported magnitude of a dependent endpoint.
pub const INTERP_VAL_MAX: i64 = 0x400_0000_0000_0000;

/// The interpolated dependent value at position `i`, for endpoints
/// `(i0, d0)` and `(i1, d1)`: the exact rational
/// `d0 + (i - i0) * (d1 - d0) / (i1 - i0)` rounded to the nearest unit,
/// ties away from zero.  A single-position range keeps its start value.
pub open spec fn lerp_at(i0: int, d0: int, i1: int, d1: int, i: int) -> int {
    if i1 <= i0 {
        d0
    } else {
        rdiv(d0 * (i1 - i0) + (i - i0) * (d1 - d0), i1 - i0)
    }
}

/// Whether the slope of interpolation `(i0, d0) -> (i1, d1)` is strictly
/// smaller than the slope of `(j0, e0) -> (j1, e1)`, by cross
/// multiplication of the two per-step deltas.
pub open spec fn slope_lt(
    i0: int, d0: int, i1: int, d1: int,
    j0: int, e0: int, j1: int, e1: int,
) -> bool {
    (d1 - d0) * (j1 - j0) < (e1 - e0) * (i1 - i0)
}

/// Range conditions under which every interpolation step is computable.
pub open spec fn interp_ok(i0: int, d0: int, i1: int, d1: int) -> bool {
    &&& i0 <= i1
    &&& i1 - i0 <= INTERP_STEP_MAX
    &&& -INTERP_POS_MAX <= i0 <= INTERP_POS_MAX
    &&& -INTERP_POS_MAX <= i1 <= INTERP_POS_MAX
    &&& -INTERP_VAL_MAX <= d0 <= INTERP_VAL_MAX
    &&& -INTERP_VAL_MAX <= d1 <= INTERP_VAL_MAX
}

/// Interpolated values stay between the two dependent endpoints.
pub proof fn lemma_lerp_between(i0: int, d0: int, i1: int, d1: int, i: int)
    requires
        i0 <= i <= i1,
    ensures
        d0 <= lerp_at(i0, d0, i1, d1, i) <= d1 || d1 <= lerp_at(i0, d0, i1, d1, i) <= d0,
{
    if i0 < i1 {
        let delta = i1 - i0;
        let k = i - i0;
        let num = d0 * delta + k * (d1 - d0);
        let lo = if d0 <= d1 { d0 } else { d1 };
        let hi = if d0 <= d1 { d1 } else { d0 };
        assert(lo * delta <= num <= hi * delta) by (nonlinear_arith)
            requires
                0 <= k <= delta,
                lo <= d0 <= hi,
                lo <= d1 <= hi,
                num == d0 * delta + k * (d1 - d0),
        ;
        lemma_rdiv_mono(lo * delta, num, delta);
        lemma_rdiv_mono(num, hi * delta, delta);
        lemma_rdiv_exact(lo, delta);
        lemma_rdiv_exact(hi, delta);
    }
}

/// The interpolation meets its endpoints exactly.
pub proof fn lemma_lerp_endpoints(i0: int, d0: int, i1: int, d1: int)
    ensures
        lerp_at(i0, d0, i1, d1, i0) == d0,
        i0 < i1 ==> lerp_at(i0, d0, i1, d1, i1) == d1,
{
    if i0 < i1 {
        let delta = i1 - i0;
        assert(d0 * delta + (i0 - i0) * (d1 - d0) == d0 * delta);
        lemma_rdiv_exact(d0, delta);
        assert(d0 * delta + delta * (d1 - d0) == d1 * delta) by {
            vstd::arithmetic::mul::lemma_mul_is_distributive_sub(delta, d1, d0);
            vstd::arithmetic::mul::lemma_mul_is_commutative(d0, delta);
            vstd::arithmetic::mul::lemma_mul_is_commutative(d1, delta);
        }
        lemma_rdiv_exact(d1, delta);
    }
}

/// One interpolated value, executable form.
pub fn interpolate_at(i0: i64, d0: i64, i1: i64, d1: i64, i: i64) -> (r: i64)
    requires
        interp_ok(i0 as int, d0 as int, i1 as int, d1 as int),
        i0 <= i <= i1,
    ensures
        r == lerp_at(i0 as int, d0 as int, i1 as int, d1 as int, i as int),
        -INTERP_VAL_MAX <= r <= INTERP_VAL_MAX,
{
    proof {
        lemma_lerp_between(i0 as int, d0 as int, i1 as int, d1 as int, i as int);
    }
    if i1 <= i0 {
        d0
    } else {
        let delta: i128 = (i1 - i0) as i128;
        let num: i128 = mul_i128(d0 as i128, delta) + mul_i128((i - i0) as i128, (d1 - d0) as i128);
        proof {
            assert(-0x100_0000_0000_0000_0000_0000 <= num <= 0x100_0000_0000_0000_0000_0000)
                by (nonlinear_arith)
                requires
                    num == d0 as int * (i1 - i0) + (i - i0) * (d1 - d0),
                    0 < i1 - i0 <= INTERP_STEP_MAX,
                    0 <= i - i0 <= i1 - i0,
                    INTERP_STEP_MAX == 0x100_0000,
                    -INTERP_VAL_MAX <= d0 <= INTERP_VAL_MAX,
                    -INTERP_VAL_MAX <= d1 <= INTERP_VAL_MAX,
                    INTERP_VAL_MAX == 0x400_0000_0000_0000,
            ;
        }
        let r: i128 = rdiv_i128(num, delta);
        r as i64
    }
}

/// The dense interpolation: one `(i, value)` pair for every integer `i` in
/// `i0 ..= i1`, in increasing order of `i`.  The first value equals `d0`
/// and the last equals `d1` exactly.
pub fn interpolate(i0: i64, d0: i64, i1: i64, d1: i64) -> (r: Vec<(i64, i64)>)
    requires
        interp_ok(i0 as int, d0 as int, i1 as int, d1 as int),
    ensures
        r@.len() == i1 - i0 + 1,
        forall|k: int| 0 <= k < r@.len() ==> #[trigger] r@[k]
            == (((i0 + k) as i64, lerp_at(i0 as int, d0 as int, i1 as int, d1 as int, i0 + k) as i64)),
        r@[0].1 == d0,
        i0 < i1 ==> r@[r@.len() - 1].1 == d1,
{
    let mut out: Vec<(i64, i64)> = Vec::new();
    let mut i: i64 = i0;
    while i <= i1
        invariant
            interp_ok(i0 as int, d0 as int, i1 as int, d1 as int),
            i0 <= i <= i1 + 1,
            out@.len() == i - i0,
            forall|k: int| 0 <= k < out@.len() ==> #[trigger] out@[k]
                == (((i0 + k) as i64, lerp_at(i0 as int, d0 as int, i1 as int, d1 as int, i0 + k) as i64)),
        decreases i1 - i + 1,
    {
        let v: i64 = interpolate_at(i0, d0, i1, d1, i);
        proof {
            lemma_lerp_between(i0 as int, d0 as int, i1 as int, d1 as int, i as int);
        }
        out.push((i, v));
        i = i + 1;
    }
    proof {
        lemma_lerp_endpoints(i0 as int, d0 as int, i1 as int, d1 as int);
        assert(out@[0] == ((i0, lerp_at(i0 as int, d0 as int, i1 as int, d1 as int, i0 as int) as i64)));
        assert(out@[out@.len() - 1]
            == ((i1, lerp_at(i0 as int, d0 as int, i1 as int, d1 as int, i1 as int) as i64)));
    }
    out
}

/// The paired interpolation for perspective-correct scan conversion: a
/// coordinate channel and a fixed-point depth channel advanced in
/// lockstep, one `(i, coordinate, depth)` triple per integer position.
pub fn interpolate_with_depth(
    i0: i64, d0: i64, z0: i64,
    i1: i64, d1: i64, z1: i64,
) -> (r: Vec<(i64, i64, i64)>)
    requires
        interp_ok(i0 as int, d0 as int, i1 as int, d1 as int),
        interp_ok(i0 as int, z0 as int, i1 as int, z1 as int),
    ensures
        r@.len() == i1 - i0 + 1,
        forall|k: int| 0 <= k < r@.len() ==> #[trigger] r@[k]
            == (((i0 + k) as i64,
                lerp_at(i0 as int, d0 as int, i1 as int, d1 as int, i0 + k) as i64,
                lerp_at(i0 as int, z0 as int, i1 as int, z1 as int, i0 + k) as i64)),
{
    let mut out: Vec<(i64, i64, i64)> = Vec::new();
    let mut i: i64 = i0;
    while i <= i1
        invariant
            interp_ok(i0 as int, d0 as int, i1 as int, d1 as int),
            interp_ok(i0 as int, z0 as int, i1 as int, z1 as int),
            i0 <= i <= i1 + 1,
            out@.len() == i - i0,
            forall|k: int| 0 <= k < out@.len() ==> #[trigger] out@[k]
                == (((i0 + k) as i64,
                    lerp_at(i0 as int, d0 as int, i1 as int, d1 as int, i0 + k) as i64,
                    lerp_at(i0 as int, z0 as int, i1 as int, z1 as int, i0 + k) as i64)),
        decreases i1 - i + 1,
    {
        let v: i64 = interpolate_at(i0, d0, i1, d1, i);
        let z: i64 = interpolate_at(i0, z0, i1, z1, i);
        out.push((i, v, z));
        i = i + 1;
    }
    out
}

/// A restartable pull-based interpolation: keeps its endpoints and a
/// cursor, and hands out one `(i, value)` pair per call to `next`.
pub struct Interp {
    pub i0: i64,
    pub d0: i64,
    pub i1: i64,
    pub d1: i64,
    pub next_i: i64,
}

impl Interp {
    /// Endpoints in range and cursor inside the (closed) remaining range.
    pub open spec fn wf(self) -> bool {
        &&& interp_ok(self.i0 as int, self.d0 as int, self.i1 as int, self.d1 as int)
        &&& self.i0 <= self.next_i <= self.i1 + 1
    }

    /// A fresh interpolation with the cursor at the first position.
    pub fn new(i0: i64, d0: i64, i1: i64, d1: i64) -> (r: Interp)
        requires
            interp_ok(i0 as int, d0 as int, i1 as int, d1 as int),
        ensures
            r.wf(),
            r.i0 == i0 && r.d0 == d0 && r.i1 == i1 && r.d1 == d1,
            r.next_i == i0,
    {
        Interp { i0, d0, i1, d1, next_i: i0 }
    }

    /// Moves the cursor back to the first position.
    pub fn restart(&mut self)
        requires
            old(self).wf(),
        ensures
            final(self).wf(),
            *final(self) == (Interp { next_i: old(self).i0, ..*old(self) }),
    {
        self.next_i = self.i0;
    }

    /// The next `(i, value)` pair, or `None` once the range is exhausted.
    pub fn next(&mut self) -> (r: Option<(i64, i64)>)
        requires
            old(self).wf(),
        ensures
            final(self).wf(),
            old(self).next_i <= old(self).i1 ==> {
                &&& r == Some(((old(self).next_i,
                    lerp_at(old(self).i0 as int, old(self).d0 as int,
                        old(self).i1 as int, old(self).d1 as int, old(self).next_i as int) as i64)))
                &&& *final(self) == (Interp { next_i: (old(self).next_i + 1) as i64, ..*old(self) })
            },
            old(self).next_i > old(self).i1 ==> r is None && *final(self) == *old(self),
    {
        if self.next_i <= self.i1 {
            let v: i64 = interpolate_at(self.i0, self.d0, self.i1, self.d1, self.next_i);
            let i: i64 = self.next_i;
            self.next_i = self.next_i + 1;
            Some((i, v))
        } else {
            None
        }
    }

    /// Whether this interpolation's slope lies strictly left of (below)
    /// the other's, decided without consuming any values.
    pub fn left_of(&self, other: &Interp) -> (r: bool)
        requires
            self.wf(),
            other.wf(),
        ensures
            r == slope_lt(
                self.i0 as int, self.d0 as int, self.i1 as int, self.d1 as int,
                other.i0 as int, other.d0 as int, other.i1 as int, other.d1 as int,
            ),
    {
        let a: i128 = mul_i128((self.d1 - self.d0) as i128, (other.i1 - other.i0) as i128);
        let b: i128 = mul_i128((other.d1 - other.d0) as i128, (self.i1 - self.i0) as i128);
        a < b
    }
}

} // verus!
