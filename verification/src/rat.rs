//! The mathematical model of the library's scalars: exact rational numbers.
//!
//! Every executable scalar (`Ratio`, and the unit types built on it) is
//! interpreted as a `Rat`, a ghost pair of unbounded integers read as the
//! rational number `n / d`. Two pairs denote the same number exactly when
//! their cross products agree; all contracts in the crate are stated over
//! that equivalence.

use vstd::arithmetic::mul::lemma_mul_is_distributive_add_other_way;
use vstd::arithmetic::mul::lemma_mul_is_distributive_sub_other_way;
use vstd::prelude::*;

verus! {

/// A rational number `n / d`, as a ghost value. Well-formed values keep
/// `d` positive; equality of the denoted numbers is `rat_eqv`, not
/// structural equality of the pairs.
pub struct Rat {
    pub n: int,
    pub d: int,
}

/// A well-formed rational representation: positive denominator.
pub open spec fn rat_wf(a: Rat) -> bool {
    a.d > 0
}

/// `a` and `b` denote the same rational number.
pub open spec fn rat_eqv(a: Rat, b: Rat) -> bool {
    a.n * b.d == b.n * a.d
}

/// The rational number for the integer `i`.
pub open spec fn rat_int(i: int) -> Rat {
    Rat { n: i, d: 1 }
}

/// Exact sum.
pub open spec fn rat_add(a: Rat, b: Rat) -> Rat {
    Rat { n: a.n * b.d + b.n * a.d, d: a.d * b.d }
}

/// Exact difference `a - b`.
pub open spec fn rat_sub(a: Rat, b: Rat) -> Rat {
    Rat { n: a.n * b.d - b.n * a.d, d: a.d * b.d }
}

/// Exact negation.
pub open spec fn rat_neg(a: Rat) -> Rat {
    Rat { n: -a.n, d: a.d }
}

/// Exact product.
pub open spec fn rat_mul(a: Rat, b: Rat) -> Rat {
    Rat { n: a.n * b.n, d: a.d * b.d }
}

/// Exact quotient `a / b`. The pair is not sign-normalized: its
/// denominator is negative when `b` is negative. Consumers compare
/// results through `rat_eqv`, which tolerates either sign.
pub open spec fn rat_div(a: Rat, b: Rat) -> Rat {
    Rat { n: a.n * b.d, d: a.d * b.n }
}

/// `a <= b` as rational numbers (both well-formed).
pub open spec fn rat_le(a: Rat, b: Rat) -> bool {
    a.n * b.d <= b.n * a.d
}

/// `a < b` as rational numbers (both well-formed).
pub open spec fn rat_lt(a: Rat, b: Rat) -> bool {
    a.n * b.d < b.n * a.d
}

/// An equality of integers survives multiplication by any factor.
proof fn lemma_eq_mul(x: int, y: int, z: int)
    by (nonlinear_arith)
    requires
        x == y,
    ensures
        x * z == y * z,
{
}

/// Denoting the same number is transitive (the middle pair must have a
/// nonzero denominator).
pub proof fn lemma_eqv_trans(a: Rat, b: Rat, c: Rat)
    by (nonlinear_arith)
    requires
        b.d != 0,
        rat_eqv(a, b),
        rat_eqv(b, c),
    ensures
        rat_eqv(a, c),
{
}

/// Sums of equal numbers are equal numbers.
pub proof fn lemma_add_eqv(a: Rat, b: Rat, a2: Rat, b2: Rat)
    requires
        rat_eqv(a, a2),
        rat_eqv(b, b2),
    ensures
        rat_eqv(rat_add(a, b), rat_add(a2, b2)),
{
    lemma_eq_mul(a.n * a2.d, a2.n * a.d, b.d * b2.d);
    lemma_eq_mul(b.n * b2.d, b2.n * b.d, a.d * a2.d);
    lemma_mul_is_distributive_add_other_way(a2.d * b2.d, a.n * b.d, b.n * a.d);
    lemma_mul_is_distributive_add_other_way(a.d * b.d, a2.n * b2.d, b2.n * a2.d);
    assert((a.n * b.d) * (a2.d * b2.d) == (a.n * a2.d) * (b.d * b2.d)) by (nonlinear_arith);
    assert((b.n * a.d) * (a2.d * b2.d) == (b.n * b2.d) * (a.d * a2.d)) by (nonlinear_arith);
    assert((a2.n * b2.d) * (a.d * b.d) == (a2.n * a.d) * (b.d * b2.d)) by (nonlinear_arith);
    assert((b2.n * a2.d) * (a.d * b.d) == (b2.n * b.d) * (a.d * a2.d)) by (nonlinear_arith);
}

/// Differences of equal numbers are equal numbers.
pub proof fn lemma_sub_eqv(a: Rat, b: Rat, a2: Rat, b2: Rat)
    requires
        rat_eqv(a, a2),
        rat_eqv(b, b2),
    ensures
        rat_eqv(rat_sub(a, b), rat_sub(a2, b2)),
{
    lemma_eq_mul(a.n * a2.d, a2.n * a.d, b.d * b2.d);
    lemma_eq_mul(b.n * b2.d, b2.n * b.d, a.d * a2.d);
    lemma_mul_is_distributive_sub_other_way(a2.d * b2.d, a.n * b.d, b.n * a.d);
    lemma_mul_is_distributive_sub_other_way(a.d * b.d, a2.n * b2.d, b2.n * a2.d);
    assert((a.n * b.d) * (a2.d * b2.d) == (a.n * a2.d) * (b.d * b2.d)) by (nonlinear_arith);
    assert((b.n * a.d) * (a2.d * b2.d) == (b.n * b2.d) * (a.d * a2.d)) by (nonlinear_arith);
    assert((a2.n * b2.d) * (a.d * b.d) == (a2.n * a.d) * (b.d * b2.d)) by (nonlinear_arith);
    assert((b2.n * a2.d) * (a.d * b.d) == (b2.n * b.d) * (a.d * a2.d)) by (nonlinear_arith);
}

/// Products of equal numbers are equal numbers.
pub proof fn lemma_mul_eqv(a: Rat, b: Rat, a2: Rat, b2: Rat)
    requires
        rat_eqv(a, a2),
        rat_eqv(b, b2),
    ensures
        rat_eqv(rat_mul(a, b), rat_mul(a2, b2)),
{
    lemma_eq_mul(a.n * a2.d, a2.n * a.d, b.n * b2.d);
    lemma_eq_mul(b.n * b2.d, b2.n * b.d, a2.n * a.d);
    assert((a.n * b.n) * (a2.d * b2.d) == (a.n * a2.d) * (b.n * b2.d)) by (nonlinear_arith);
    assert((a2.n * b2.n) * (a.d * b.d) == (b2.n * b.d) * (a2.n * a.d)) by (nonlinear_arith);
}

/// Negations of equal numbers are equal numbers.
pub proof fn lemma_neg_eqv(a: Rat, a2: Rat)
    by (nonlinear_arith)
    requires
        rat_eqv(a, a2),
    ensures
        rat_eqv(rat_neg(a), rat_neg(a2)),
{
}

/// Quotients of equal numbers are equal numbers (divisors nonzero).
pub proof fn lemma_div_eqv(a: Rat, b: Rat, a2: Rat, b2: Rat)
    requires
        rat_eqv(a, a2),
        rat_eqv(b, b2),
    ensures
        rat_eqv(rat_div(a, b), rat_div(a2, b2)),
{
    lemma_eq_mul(a.n * a2.d, a2.n * a.d, b.d * b2.n);
    lemma_eq_mul(b.n * b2.d, b2.n * b.d, a2.n * a.d);
    assert((a.n * b.d) * (a2.d * b2.n) == (a.n * a2.d) * (b.d * b2.n)) by (nonlinear_arith);
    assert((a2.n * a.d) * (b.d * b2.n) == (b2.n * b.d) * (a2.n * a.d)) by (nonlinear_arith);
    assert((a2.n * b2.d) * (a.d * b.n) == (b.n * b2.d) * (a2.n * a.d)) by (nonlinear_arith);
}

/// A product of positive integers is positive.
pub proof fn lemma_pos_mul(a: int, b: int)
    by (nonlinear_arith)
    requires
        a > 0,
        b > 0,
    ensures
        a * b > 0,
{
}

/// A computed sum that matches `rat_add(a, b)` also matches the sum
/// with `b` replaced by any pair denoting the same number.
pub proof fn lemma_add_to(a: Rat, b: Rat, b2: Rat, r: Rat)
    requires
        a.d > 0,
        b.d > 0,
        rat_eqv(b, b2),
        rat_eqv(r, rat_add(a, b)),
    ensures
        rat_eqv(r, rat_add(a, b2)),
{
    lemma_add_eqv(a, b, a, b2);
    lemma_pos_mul(a.d, b.d);
    lemma_eqv_trans(r, rat_add(a, b), rat_add(a, b2));
}

/// Adding a number and then its negation returns to the start.
pub proof fn lemma_add_neg_cancel(v: Rat, t: Rat)
    requires
        v.d > 0,
        t.d > 0,
    ensures
        rat_eqv(rat_add(rat_add(v, t), rat_neg(t)), v),
{
    let u = rat_add(v, t);
    assert((u.n * t.d + (-t.n) * u.d) * v.d == v.n * (u.d * t.d)) by (nonlinear_arith)
        requires
            u.n == v.n * t.d + t.n * v.d,
            u.d == v.d * t.d,
    ;
}

/// Pairs denoting the same number have numerators of the same sign.
pub proof fn lemma_sign_eqv(a: Rat, b: Rat)
    by (nonlinear_arith)
    requires
        rat_wf(a),
        rat_wf(b),
        rat_eqv(a, b),
    ensures
        (a.n == 0) <==> (b.n == 0),
        (a.n > 0) <==> (b.n > 0),
        (a.n < 0) <==> (b.n < 0),
{
}

/// The order relation respects `rat_eqv` on both sides.
pub proof fn lemma_le_eqv(a: Rat, b: Rat, a2: Rat, b2: Rat)
    requires
        rat_wf(a),
        rat_wf(b),
        rat_wf(a2),
        rat_wf(b2),
        rat_eqv(a, a2),
        rat_eqv(b, b2),
        rat_le(a, b),
    ensures
        rat_le(a2, b2),
{
    assert((a.n * b.d) * (a2.d * b2.d) <= (b.n * a.d) * (a2.d * b2.d)) by (nonlinear_arith)
        requires
            a.n * b.d <= b.n * a.d,
            a2.d > 0,
            b2.d > 0,
    ;
    assert((a.n * b.d) * (a2.d * b2.d) == (a2.n * b2.d) * (a.d * b.d)) by (nonlinear_arith)
        requires
            a.n * a2.d == a2.n * a.d,
            b.n * b2.d == b2.n * b.d,
    ;
    assert((b.n * a.d) * (a2.d * b2.d) == (b2.n * a2.d) * (a.d * b.d)) by (nonlinear_arith)
        requires
            a.n * a2.d == a2.n * a.d,
            b.n * b2.d == b2.n * b.d,
    ;
    assert((a2.n * b2.d) * (a.d * b.d) <= (b2.n * a2.d) * (a.d * b.d) ==> a2.n * b2.d <= b2.n
        * a2.d) by (nonlinear_arith)
        requires
            a.d > 0,
            b.d > 0,
    ;
}

} // verus!
