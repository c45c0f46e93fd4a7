//! An incremental generator for the 2D Halton low-discrepancy sequence.
//!
//! The state holds, for each of the two bases, the current fraction
//! `n / d` with `d` a power of the base; one step rewrites the fraction
//! to the next element of the Halton sequence for that base.  The
//! values are handed out as exact numerator/denominator pairs, each a
//! fraction strictly between zero and one.

use vstd::prelude::*;

verus! {

/// `b` raised to the `k`-th power.
pub open spec fn pow_nat(b: nat, k: nat) -> nat
    decreases k,
{
    if k == 0 {
        1
    } else {
        b * pow_nat(b, (k - 1) as nat)
    }
}

/// Whether `x` is a power of `b`.
pub open spec fn is_power(b: nat, x: nat) -> bool {
    exists|k: nat| x == pow_nat(b, k)
}

/// One is a power of every base.
pub proof fn lemma_power_one(b: nat)
    ensures
        is_power(b, 1),
{
    assert(pow_nat(b, 0) == 1);
}

/// Multiplying a power of `b` by `b` gives a power of `b`.
pub proof fn lemma_power_step(b: nat, x: nat)
    requires
        is_power(b, x),
    ensures
        is_power(b, x * b),
{
    let k = choose|k: nat| x == pow_nat(b, k);
    assert(pow_nat(b, k + 1) == b * pow_nat(b, k));
    assert(x * b == b * x) by (nonlinear_arith);
}

/// A power of `b` that is at least two is divisible by `b`, and its
/// quotient is again a power of `b` with `b` times the quotient giving
/// the value back exactly.
pub proof fn lemma_power_div(b: nat, x: nat)
    requires
        b >= 2,
        x >= 2,
        is_power(b, x),
    ensures
        is_power(b, x / b),
        (x / b) * b == x,
        x / b >= 1,
{
    let k = choose|k: nat| x == pow_nat(b, k);
    if k == 0 {
        assert(pow_nat(b, 0) == 1);
    } else {
        let m = pow_nat(b, (k - 1) as nat);
        assert(x == b * m);
        assert(m >= 1) by {
            lemma_pow_pos(b, (k - 1) as nat);
        }
        assert((b * m) / b == m) by {
            vstd::arithmetic::div_mod::lemma_div_by_multiple(m as int, b as int);
            assert(m * b == b * m) by (nonlinear_arith);
        }
        assert((x / b) * b == x) by {
            assert(m * b == b * m) by (nonlinear_arith);
        }
    }
}

/// Powers of a positive base are positive.
pub proof fn lemma_pow_pos(b: nat, k: nat)
    requires
        b >= 1,
    ensures
        pow_nat(b, k) >= 1,
    decreases k,
{
    if k > 0 {
        lemma_pow_pos(b, (k - 1) as nat);
        assert(b * pow_nat(b, (k - 1) as nat) >= 1) by (nonlinear_arith)
            requires
                b >= 1,
                pow_nat(b, (k - 1) as nat) >= 1,
        ;
    }
}

/// The denominator scale the radical-inverse step settles on: `y` is
/// divided by the base until it is smaller than `x`.
pub open spec fn find_y(b: int, x: int, y: int) -> int
    decreases y via find_y_decreases
{
    if b < 2 || y < 1 || x > y {
        y
    } else {
        find_y(b, x, y / b)
    }
}

#[via_fn]
proof fn find_y_decreases(b: int, x: int, y: int) {
    if !(b < 2 || y < 1 || x > y) {
        vstd::arithmetic::div_mod::lemma_div_is_strictly_smaller(y, b);
    }
}

/// Generator state for the 2D Halton sequence with bases `B1` and `B2`:
/// the current fraction `n1 / d1` in base `B1` and `n2 / d2` in base
/// `B2`.
pub struct Halton2D<const B1: usize, const B2: usize> {
    pub n1: usize,
    pub n2: usize,
    pub d1: usize,
    pub d2: usize,
}

/// Whether one dimension's state is valid: a numerator below its
/// denominator, the denominator a power of the base.
pub open spec fn dim_ok(b: usize, n: usize, d: usize) -> bool {
    n < d && is_power(b as nat, d as nat)
}

impl<const B1: usize, const B2: usize> Halton2D<B1, B2> {
    /// Both dimensions valid.
    pub open spec fn wf(self) -> bool {
        dim_ok(B1, self.n1, self.d1) && dim_ok(B2, self.n2, self.d2)
    }

    /// Advances the two fractions to the next element of the sequence
    /// and returns them as `((n1, d1), (n2, d2))`; each returned
    /// fraction is strictly between zero and one.
    pub fn next(&mut self) -> (r: ((usize, usize), (usize, usize)))
        requires
            old(self).wf(),
            2 <= B1 <= 256,
            2 <= B2 <= 256,
            old(self).d1 <= 0x40_0000,
            old(self).d2 <= 0x40_0000,
        ensures
            final(self).wf(),
            r == ((final(self).n1, final(self).d1), (final(self).n2, final(self).d2)),
            0 < final(self).n1 < final(self).d1,
            0 < final(self).n2 < final(self).d2,
            final(self).d1 <= old(self).d1 * B1,
            final(self).d2 <= old(self).d2 * B2,
            ({
                let x = old(self).d1 - old(self).n1;
                if x == 1 {
                    final(self).n1 == 1 && final(self).d1 == old(self).d1 * B1
                } else {
                    final(self).d1 == old(self).d1
                        && final(self).n1
                            == (B1 + 1) * find_y(B1 as int, x as int, old(self).d1 as int / B1 as int) - x
                }
            }),
            ({
                let x = old(self).d2 - old(self).n2;
                if x == 1 {
                    final(self).n2 == 1 && final(self).d2 == old(self).d2 * B2
                } else {
                    final(self).d2 == old(self).d2
                        && final(self).n2
                            == (B2 + 1) * find_y(B2 as int, x as int, old(self).d2 as int / B2 as int) - x
                }
            }),
    {
        let (n1, d1) = halton_dim_step::<B1>(self.n1, self.d1);
        self.n1 = n1;
        self.d1 = d1;
        let (n2, d2) = halton_dim_step::<B2>(self.n2, self.d2);
        self.n2 = n2;
        self.d2 = d2;
        ((n1, d1), (n2, d2))
    }
}

/// One radical-inverse step for a single base.
fn halton_dim_step<const B: usize>(n: usize, d: usize) -> (r: (usize, usize))
    requires
        dim_ok(B, n, d),
        2 <= B <= 256,
        d <= 0x40_0000,
    ensures
        dim_ok(B, r.0, r.1),
        0 < r.0 < r.1,
        r.1 <= d * B,
        ({
            let x = d - n;
            if x == 1 {
                r.0 == 1 && r.1 == d * B
            } else {
                r.1 == d && r.0 == (B + 1) * find_y(B as int, x as int, d as int / B as int) - x
            }
        }),
{
    let x: usize = d - n;
    if x == 1 {
        proof {
            lemma_power_step(B as nat, d as nat);
            assert(d * B >= 2) by (nonlinear_arith)
                requires
                    d >= 1,
                    B >= 2,
            ;
            assert(d * B <= 0x40_0000 * 256) by (nonlinear_arith)
                requires
                    d <= 0x40_0000,
                    B <= 256,
            ;
        }
        (1, d * B)
    } else {
        proof {
            // In this branch the fraction is at least two steps from
            // its scale boundary, so d is at least B.
            assert(x >= 2);
            lemma_power_div(B as nat, d as nat);
        }
        let mut y: usize = d / B;
        let ghost y0 = d as int / B as int;
        proof {
            assert(B * y <= d && y >= 1) by {
                assert((d / B) * B == d && d / B >= 1);
                assert((d as int / B as int) * B == B * (d as int / B as int))
                    by (nonlinear_arith);
            }
            assert(x <= B * y) by {
                assert(x <= d);
            }
        }
        while x <= y
            invariant
                2 <= B <= 256,
                2 <= x <= 0x40_0000,
                1 <= y <= 0x40_0000,
                is_power(B as nat, y as nat),
                x <= B * y,
                B * y <= d,
                find_y(B as int, x as int, y as int) == find_y(B as int, x as int, y0),
            decreases y,
        {
            proof {
                lemma_power_div(B as nat, y as nat);
                assert(B * (y as int / B as int) <= B * y) by (nonlinear_arith)
                    requires
                        y as int / B as int <= y,
                        B >= 0,
                ;
                vstd::arithmetic::div_mod::lemma_div_is_strictly_smaller(y as int, B as int);
            }
            y = y / B;
        }
        proof {
            assert(find_y(B as int, x as int, y as int) == y);
            assert((B + 1) * y == B * y + y) by (nonlinear_arith);
        }
        let nn: usize = (B + 1) * y - x;
        proof {
            assert(nn < d);
            assert(nn >= 1);
            assert(d <= d * B) by (nonlinear_arith)
                requires
                    B >= 1,
                    d >= 0,
            ;
        }
        (nn, d)
    }
}

/// A fresh 2D Halton generator: both fractions start at `0 / 1`.
pub fn halton_2d<const B1: usize, const B2: usize>() -> (r: Halton2D<B1, B2>)
    ensures
        r.wf(),
        r == (Halton2D::<B1, B2> { n1: 0, n2: 0, d1: 1, d2: 1 }),
{
    proof {
        lemma_power_one(B1 as nat);
        lemma_power_one(B2 as nat);
    }
    Halton2D { d1: 1, d2: 1, n1: 0, n2: 0 }
}

} // verus!
