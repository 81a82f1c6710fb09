//! Executable exact scalars.
//!
//! A `Ratio` stores a rational number as an `i64` numerator and positive
//! `i64` denominator. Arithmetic widens to `i128`, so intermediate cross
//! products never overflow; each operation requires that its exact
//! (unreduced) result fits back into the `i64` fields, and results are
//! reduced by the greatest common divisor to keep later operations small.

use crate::rat::{lemma_eqv_trans, rat_add, rat_div, rat_eqv, rat_int, rat_le, rat_lt, rat_mul,
    rat_neg, rat_sub, Rat};
use vstd::arithmetic::div_mod::lemma_fundamental_div_mod;
use vstd::math::abs;
use vstd::prelude::*;

verus! {

/// An exact rational scalar: the number `n / d`.
#[derive(Clone, Copy, Debug)]
pub struct Ratio {
    pub n: i64,
    pub d: i64,
}

impl View for Ratio {
    type V = Rat;

    open spec fn view(&self) -> Rat {
        Rat { n: self.n as int, d: self.d as int }
    }
}

/// The magnitude bound kept by every well-formed `Ratio`: numerators stay
/// strictly above `i64::MIN` so that negation can never overflow.
pub open spec fn fits_i64(a: Rat) -> bool {
    &&& -(i64::MAX as int) <= a.n <= i64::MAX as int
    &&& 1 <= a.d <= i64::MAX as int
}

/// As `fits_i64`, but for quotient pairs, whose denominator carries the
/// divisor's sign: only the magnitudes are constrained.
pub open spec fn fits_i64_signed(a: Rat) -> bool {
    &&& -(i64::MAX as int) <= a.n <= i64::MAX as int
    &&& 1 <= abs(a.d) <= i64::MAX as int
}

impl Ratio {
    /// A valid stored scalar: positive denominator, negation-safe numerator.
    pub open spec fn wf(self) -> bool {
        &&& self.d >= 1
        &&& -(i64::MAX as int) <= self.n as int
    }

    /// The scalar denoting the integer `i`.
    pub fn from_int(i: i64) -> (r: Ratio)
        requires
            -(i64::MAX as int) <= i as int,
        ensures
            r.wf(),
            r@ == rat_int(i as int),
            r == (Ratio { n: i, d: 1 }),
    {
        Ratio { n: i, d: 1 }
    }

    /// The scalar `n / d`, reduced.
    pub fn new(n: i64, d: i64) -> (r: Ratio)
        requires
            d >= 1,
            -(i64::MAX as int) <= n as int,
        ensures
            r.wf(),
            rat_eqv(r@, Rat { n: n as int, d: d as int }),
            abs(r@.n) <= abs(n as int),
            r@.d <= d as int,
    {
        reduce64(n, d)
    }
}

/// Room to add or subtract, against a bound on the other operand's
/// representation rather than the operand itself: any value whose
/// numerator magnitude is at most `bn` and denominator at most `bd`
/// can be combined with `a` without leaving the stored range.
pub open spec fn fits_after(a: Rat, bn: int, bd: int) -> bool {
    &&& abs(a.n) * bd + bn * a.d <= i64::MAX as int
    &&& a.d * bd <= i64::MAX as int
}

/// `fits_after` really does admit every operand within the bound.
pub proof fn lemma_fits_add(a: Rat, b: Rat, bn: int, bd: int)
    by (nonlinear_arith)
    requires
        a.d > 0,
        b.d > 0,
        abs(b.n) <= bn,
        b.d <= bd,
        fits_after(a, bn, bd),
    ensures
        fits_i64(rat_add(a, b)),
        fits_i64(rat_sub(a, b)),
        fits_i64(rat_add(b, a)),
        fits_i64(rat_sub(b, a)),
{
}

/// The product of two `i64`s, widened so it cannot overflow.
fn mul128(x: i64, y: i64) -> (r: i128)
    ensures
        r as int == (x as int) * (y as int),
{
    proof {
        lemma_mul_i64_in_i128(x as int, y as int);
    }
    (x as i128) * (y as i128)
}

/// A product of two `i64`-range factors stays far inside the `i128` range.
proof fn lemma_mul_i64_in_i128(x: int, y: int)
    by (nonlinear_arith)
    requires
        i64::MIN as int <= x <= i64::MAX as int,
        i64::MIN as int <= y <= i64::MAX as int,
    ensures
        -(0x4000_0000_0000_0000_0000_0000_0000_0000) <= x * y
            <= 0x4000_0000_0000_0000_0000_0000_0000_0000,
{
}

/// Greatest-common-divisor helper: any positive result at least 1.
/// Only the lower bound is relied on; the divisibility of the inputs by
/// the result is checked at run time where it matters.
fn gcd_u64(a: u64, b: u64) -> (g: u64)
    requires
        b >= 1,
    ensures
        g >= 1,
{
    let mut x = a;
    let mut y = b;
    while x != 0
        invariant
            y >= 1,
        decreases x,
    {
        let t = y % x;
        y = x;
        x = t;
    }
    y
}

/// Reduces `n / d` by the greatest common divisor of the magnitudes.
/// The result denotes the same number and is no larger componentwise.
fn reduce64(n: i64, d: i64) -> (r: Ratio)
    requires
        d >= 1,
        -(i64::MAX as int) <= n as int,
    ensures
        r.wf(),
        rat_eqv(r@, Rat { n: n as int, d: d as int }),
        abs(r@.n) <= abs(n as int),
        r@.d <= d as int,
{
    if n == 0 {
        proof {
            assert(0int * (d as int) == 0 && (n as int) * 1 == 0) by (nonlinear_arith)
                requires
                    n as int == 0,
            ;
        }
        return Ratio { n: 0, d: 1 };
    }
    let m: u64 = if n < 0 {
        (-n) as u64
    } else {
        n as u64
    };
    let du: u64 = d as u64;
    let g = gcd_u64(m, du);
    if m % g == 0 && du % g == 0 {
        let mr = m / g;
        let dr = du / g;
        if 1 <= dr && mr <= i64::MAX as u64 && dr <= i64::MAX as u64 {
            proof {
                lemma_fundamental_div_mod(m as int, g as int);
                lemma_fundamental_div_mod(du as int, g as int);
                assert((m / g) as int * (d as int) == (m as int) * (dr as int))
                    by (nonlinear_arith)
                    requires
                        m as int == (g as int) * ((m / g) as int),
                        d as int == du as int,
                        du as int == (g as int) * ((du / g) as int),
                        dr as int == (du / g) as int,
                ;
                assert((m / g) as int <= m as int) by (nonlinear_arith)
                    requires
                        m as int == (g as int) * ((m / g) as int),
                        g >= 1,
                        (m / g) as int >= 0,
                ;
                assert((du / g) as int <= du as int) by (nonlinear_arith)
                    requires
                        du as int == (g as int) * ((du / g) as int),
                        g >= 1,
                        (du / g) as int >= 0,
                ;
                if n < 0 {
                    assert((-(mr as int)) * (d as int) == (n as int) * (dr as int))
                        by (nonlinear_arith)
                        requires
                            (mr as int) * (d as int) == (m as int) * (dr as int),
                            n as int == -(m as int),
                    ;
                }
            }
            let nr: i64 = if n < 0 {
                -(mr as i64)
            } else {
                mr as i64
            };
            return Ratio { n: nr, d: dr as i64 };
        }
    }
    Ratio { n, d }
}

impl Ratio {
    /// Exact sum. The unreduced exact result must fit the stored range.
    pub fn add(self, rhs: Ratio) -> (r: Ratio)
        requires
            self.wf(),
            rhs.wf(),
            fits_i64(rat_add(self@, rhs@)),
        ensures
            r.wf(),
            rat_eqv(r@, rat_add(self@, rhs@)),
            abs(r@.n) <= abs(rat_add(self@, rhs@).n),
            r@.d <= rat_add(self@, rhs@).d,
    {
        let nn: i128 = mul128(self.n, rhs.d) + mul128(rhs.n, self.d);
        let dd: i128 = mul128(self.d, rhs.d);
        reduce64(nn as i64, dd as i64)
    }

    /// Exact difference `self - rhs` under the same fit condition.
    pub fn sub(self, rhs: Ratio) -> (r: Ratio)
        requires
            self.wf(),
            rhs.wf(),
            fits_i64(rat_sub(self@, rhs@)),
        ensures
            r.wf(),
            rat_eqv(r@, rat_sub(self@, rhs@)),
            abs(r@.n) <= abs(rat_sub(self@, rhs@).n),
            r@.d <= rat_sub(self@, rhs@).d,
    {
        let nn: i128 = mul128(self.n, rhs.d) - mul128(rhs.n, self.d);
        let dd: i128 = mul128(self.d, rhs.d);
        reduce64(nn as i64, dd as i64)
    }

    /// Exact negation; never overflows thanks to the stored range.
    pub fn neg(self) -> (r: Ratio)
        requires
            self.wf(),
        ensures
            r.wf(),
            r@ == rat_neg(self@),
    {
        Ratio { n: -self.n, d: self.d }
    }

    /// Exact product. The unreduced exact result must fit the stored range.
    pub fn mul(self, rhs: Ratio) -> (r: Ratio)
        requires
            self.wf(),
            rhs.wf(),
            fits_i64(rat_mul(self@, rhs@)),
        ensures
            r.wf(),
            rat_eqv(r@, rat_mul(self@, rhs@)),
            abs(r@.n) <= abs(rat_mul(self@, rhs@).n),
            r@.d <= rat_mul(self@, rhs@).d,
    {
        let nn: i128 = mul128(self.n, rhs.n);
        let dd: i128 = mul128(self.d, rhs.d);
        reduce64(nn as i64, dd as i64)
    }

    /// Exact quotient `self / rhs`; the divisor must be nonzero and the
    /// unreduced exact result must fit the stored range.
    pub fn div(self, rhs: Ratio) -> (r: Ratio)
        requires
            self.wf(),
            rhs.wf(),
            rhs@.n != 0,
            fits_i64_signed(rat_div(self@, rhs@)),
        ensures
            r.wf(),
            rat_eqv(r@, rat_div(self@, rhs@)),
            abs(r@.n) <= abs(rat_div(self@, rhs@).n),
            r@.d <= abs(rat_div(self@, rhs@).d),
    {
        let mut nn: i128 = mul128(self.n, rhs.d);
        let mut dd: i128 = mul128(self.d, rhs.n);
        let ghost n0 = nn as int;
        let ghost d0 = dd as int;
        if dd < 0 {
            nn = -nn;
            dd = -dd;
        }
        proof {
            assert(d0 != 0) by (nonlinear_arith)
                requires
                    d0 == (self@.d) * (rhs@.n),
                    self@.d >= 1,
                    rhs@.n != 0,
            ;
        }
        let r = reduce64(nn as i64, dd as i64);
        proof {
            if d0 < 0 {
                assert(rat_eqv(Rat { n: -n0, d: -d0 }, rat_div(self@, rhs@))) by (nonlinear_arith)
                    requires
                        rat_div(self@, rhs@) == (Rat { n: n0, d: d0 }),
                ;
                lemma_eqv_trans(r@, Rat { n: -n0, d: -d0 }, rat_div(self@, rhs@));
            }
        }
        r
    }

    /// Exact doubling.
    pub fn double(self) -> (r: Ratio)
        requires
            self.wf(),
            fits_i64(rat_mul(self@, rat_int(2))),
        ensures
            r.wf(),
            rat_eqv(r@, rat_mul(self@, rat_int(2))),
            abs(r@.n) <= abs(rat_mul(self@, rat_int(2)).n),
            r@.d <= self@.d,
    {
        let r = reduce64(2 * self.n, self.d);
        proof {
            assert(rat_eqv(r@, rat_mul(self@, rat_int(2)))) by (nonlinear_arith)
                requires
                    rat_eqv(r@, Rat { n: 2 * self@.n, d: self@.d }),
                    rat_mul(self@, rat_int(2)) == (Rat { n: self@.n * 2, d: self@.d * 1 }),
            ;
        }
        r
    }

    /// Exact halving; always representable because only the denominator grows.
    pub fn half(self) -> (r: Ratio)
        requires
            self.wf(),
            2 * self@.d <= i64::MAX as int,
        ensures
            r.wf(),
            rat_eqv(r@, rat_mul(self@, Rat { n: 1, d: 2 })),
            abs(r@.n) <= abs(self@.n),
            r@.d <= 2 * self@.d,
    {
        let r = reduce64(self.n, 2 * self.d);
        proof {
            assert(rat_eqv(r@, rat_mul(self@, Rat { n: 1, d: 2 }))) by (nonlinear_arith)
                requires
                    rat_eqv(r@, Rat { n: self@.n, d: 2 * self@.d }),
                    rat_mul(self@, Rat { n: 1, d: 2 }) == (Rat { n: self@.n * 1, d: self@.d * 2 }),
            ;
        }
        r
    }

    /// Exact reciprocal of a nonzero scalar.
    pub fn recip(self) -> (r: Ratio)
        requires
            self.wf(),
            self@.n != 0,
        ensures
            r.wf(),
            rat_eqv(r@, rat_div(rat_int(1), self@)),
    {
        let ghost n0 = self@.d;
        let ghost d0 = self@.n;
        let mut nn: i64 = self.d;
        let mut dd: i64 = self.n;
        if dd < 0 {
            nn = -nn;
            dd = -dd;
        }
        let r = reduce64(nn, dd);
        proof {
            assert(rat_div(rat_int(1), self@) == (Rat { n: 1 * n0, d: 1 * d0 }));
            assert(1 * n0 == n0 && 1 * d0 == d0) by (nonlinear_arith);
            if d0 < 0 {
                assert(rat_eqv(Rat { n: -n0, d: -d0 }, Rat { n: n0, d: d0 })) by (nonlinear_arith);
                lemma_eqv_trans(r@, Rat { n: -n0, d: -d0 }, Rat { n: n0, d: d0 });
            }
        }
        r
    }

    /// Strict order on the denoted numbers.
    pub fn lt(self, rhs: Ratio) -> (r: bool)
        requires
            self.wf(),
            rhs.wf(),
        ensures
            r == rat_lt(self@, rhs@),
    {
        mul128(self.n, rhs.d) < mul128(rhs.n, self.d)
    }

    /// Non-strict order on the denoted numbers.
    pub fn le(self, rhs: Ratio) -> (r: bool)
        requires
            self.wf(),
            rhs.wf(),
        ensures
            r == rat_le(self@, rhs@),
    {
        mul128(self.n, rhs.d) <= mul128(rhs.n, self.d)
    }

    /// Whether the denoted number is zero.
    pub fn is_zero(self) -> (r: bool)
        ensures
            r == (self@.n == 0),
    {
        self.n == 0
    }
}

impl PartialEq for Ratio {
    /// Equality of the denoted numbers, independent of representation.
    fn eq(&self, other: &Ratio) -> (r: bool) {
        mul128(self.n, other.d) == mul128(other.n, self.d)
    }
}

impl vstd::std_specs::cmp::PartialEqSpecImpl for Ratio {
    open spec fn obeys_eq_spec() -> bool {
        true
    }

    open spec fn eq_spec(&self, other: &Ratio) -> bool {
        rat_eqv(self@, other@)
    }
}

} // verus!
