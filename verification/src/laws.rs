//! Crate-wide geometric laws that span several operations.
//!
//! Each proof function here states, over the same spec functions the
//! executable contracts use, a property of how the operations compose:
//! what one function's output means to the next one's contract.

use crate::angle::{flip_spec, lemma_cos_flip, lemma_sin_flip};
use crate::pocket::{aim_x, aim_y, Pocket};
use crate::position::{polar_dx, polar_dy};
use crate::rat::{lemma_add_neg_cancel, lemma_div_eqv, lemma_eqv_trans, lemma_mul_eqv, rat_add,
    rat_div, rat_eqv, rat_int, rat_lt, rat_mul, rat_neg, rat_sub, rat_wf, Rat};
use vstd::prelude::*;

verus! {

/// Ghost-ball round trip: queuing the ghost-ball step at an angle and
/// then at the flipped angle cancels exactly, leaving any pending
/// shift with its original value — so after resolution against any
/// table the position is exactly where it began.
pub proof fn lemma_ghost_ball_round_trip(v: Rat, m: int, len: Rat)
    requires
        rat_wf(v),
        0 <= m < 360000,
        len.n != 0,
        len.d != 0,
    ensures
        rat_eqv(
            rat_add(rat_add(v, polar_dx(Rat { n: 9, d: 4 }, m)), polar_dx(
                Rat { n: 9, d: 4 },
                flip_spec(m),
            )),
            v,
        ),
        rat_eqv(
            rat_add(rat_add(v, polar_dy(Rat { n: 9, d: 4 }, m)), polar_dy(
                Rat { n: 9, d: 4 },
                flip_spec(m),
            )),
            v,
        ),
        rat_eqv(
            rat_div(
                rat_add(rat_add(v, polar_dx(Rat { n: 9, d: 4 }, m)), polar_dx(
                    Rat { n: 9, d: 4 },
                    flip_spec(m),
                )),
                len,
            ),
            rat_div(v, len),
        ),
        rat_eqv(
            rat_div(
                rat_add(rat_add(v, polar_dy(Rat { n: 9, d: 4 }, m)), polar_dy(
                    Rat { n: 9, d: 4 },
                    flip_spec(m),
                )),
                len,
            ),
            rat_div(v, len),
        ),
{
    let step = Rat { n: 9, d: 4 };
    let tx = polar_dx(step, m);
    let ty = polar_dy(step, m);
    let s = crate::angle::sin_scaled(m);
    let c = crate::angle::cos_scaled(m);
    lemma_sin_flip(m);
    lemma_cos_flip(m);
    assert(9 * (-s) == -(9 * s) && 9 * (-c) == -(9 * c)) by (nonlinear_arith);
    assert(polar_dx(step, flip_spec(m)) == rat_neg(tx));
    assert(polar_dy(step, flip_spec(m)) == rat_neg(ty));
    assert(tx.d > 0 && ty.d > 0);
    lemma_add_neg_cancel(v, tx);
    lemma_add_neg_cancel(v, ty);
    lemma_div_eqv(rat_add(rat_add(v, tx), rat_neg(tx)), len, v, len);
    lemma_div_eqv(rat_add(rat_add(v, ty), rat_neg(ty)), len, v, len);
}

/// Rack spacing: two positions built from the same base coordinate by
/// queued physical offsets, once resolved against any table, sit
/// exactly their offsets' difference apart when that separation is
/// measured back in inches. In particular, same-row rack neighbors,
/// whose pending offsets differ by one ball diameter, come out exactly
/// one diameter apart on every table.
pub proof fn lemma_resolved_separation(x: Rat, a: Rat, b: Rat, len: Rat)
    requires
        x.d > 0,
        a.d > 0,
        b.d > 0,
        len.n != 0,
        len.d != 0,
    ensures
        rat_eqv(
            rat_mul(rat_sub(rat_add(x, rat_div(a, len)), rat_add(x, rat_div(b, len))), len),
            rat_sub(a, b),
        ),
{
    let u = rat_div(a, len);
    let w = rat_div(b, len);
    let s = rat_sub(rat_add(x, u), rat_add(x, w));
    let k = u.n * w.d - w.n * u.d;
    vstd::arithmetic::mul::lemma_mul_is_distributive_add_other_way(
        x.d * w.d,
        x.n * u.d,
        u.n * x.d,
    );
    vstd::arithmetic::mul::lemma_mul_is_distributive_add_other_way(
        x.d * u.d,
        x.n * w.d,
        w.n * x.d,
    );
    assert((x.n * u.d) * (x.d * w.d) == (x.n * w.d) * (x.d * u.d)) by (nonlinear_arith);
    assert((u.n * x.d) * (x.d * w.d) == (x.d * x.d) * (u.n * w.d)) by (nonlinear_arith);
    assert((w.n * x.d) * (x.d * u.d) == (x.d * x.d) * (w.n * u.d)) by (nonlinear_arith);
    vstd::arithmetic::mul::lemma_mul_is_distributive_sub(x.d * x.d, u.n * w.d, w.n * u.d);
    assert(s.n == (x.d * x.d) * k);
    assert(rat_eqv(s, rat_sub(u, w))) by (nonlinear_arith)
        requires
            s.n == (x.d * x.d) * k,
            s.d == (x.d * u.d) * (x.d * w.d),
            k == u.n * w.d - w.n * u.d,
            rat_sub(u, w) == (Rat { n: k, d: u.d * w.d }),
    ;
    let q = rat_div(rat_sub(a, b), len);
    let m = a.n * b.d - b.n * a.d;
    assert((a.n * len.d) * (b.d * len.n) == (len.d * len.n) * (a.n * b.d)) by (nonlinear_arith);
    assert((b.n * len.d) * (a.d * len.n) == (len.d * len.n) * (b.n * a.d)) by (nonlinear_arith);
    vstd::arithmetic::mul::lemma_mul_is_distributive_sub(len.d * len.n, a.n * b.d, b.n * a.d);
    assert(rat_sub(u, w).n == (len.d * len.n) * m);
    assert((a.d * len.n) * (b.d * len.n) == (a.d * b.d) * (len.n * len.n)) by (nonlinear_arith);
    assert(((len.d * len.n) * m) * ((a.d * b.d) * len.n) == (m * len.d) * ((a.d * b.d) * (len.n
        * len.n))) by (nonlinear_arith);
    assert(rat_eqv(rat_sub(u, w), q));
    assert(rat_sub(u, w).d != 0) by (nonlinear_arith)
        requires
            rat_sub(u, w).d == (a.d * len.n) * (b.d * len.n),
            a.d > 0,
            b.d > 0,
            len.n != 0,
    ;
    lemma_eqv_trans(s, rat_sub(u, w), q);
    lemma_mul_eqv(s, len, q, len);
    assert(rat_eqv(rat_mul(q, len), rat_sub(a, b))) by (nonlinear_arith)
        requires
            rat_mul(q, len) == (Rat { n: (m * len.d) * len.n, d: ((a.d * b.d) * len.n) * len.d }),
            m == rat_sub(a, b).n,
            rat_sub(a, b).d == a.d * b.d,
    ;
    assert(rat_mul(q, len).d != 0) by (nonlinear_arith)
        requires
            rat_mul(q, len).d == ((a.d * b.d) * len.n) * len.d,
            a.d > 0,
            b.d > 0,
            len.n != 0,
            len.d != 0,
    ;
    assert(q.d != 0) by (nonlinear_arith)
        requires
            q.d == (a.d * b.d) * len.n,
            a.d > 0,
            b.d > 0,
            len.n != 0,
    ;
    lemma_eqv_trans(rat_mul(s, len), rat_mul(q, len), rat_sub(a, b));
}

/// Pocket aiming inward bias: the aiming center of each corner pocket
/// lies strictly inside the table on both axes — never outside its
/// anchor corner.
pub proof fn lemma_corner_aim_inward()
    ensures
        rat_lt(aim_x(Pocket::TopRight), rat_int(4)),
        rat_lt(aim_y(Pocket::TopRight), rat_int(8)),
        rat_lt(aim_x(Pocket::BottomRight), rat_int(4)),
        rat_lt(rat_int(0), aim_y(Pocket::BottomRight)),
        rat_lt(rat_int(0), aim_x(Pocket::BottomLeft)),
        rat_lt(rat_int(0), aim_y(Pocket::BottomLeft)),
        rat_lt(rat_int(0), aim_x(Pocket::TopLeft)),
        rat_lt(aim_y(Pocket::TopLeft), rat_int(8)),
{
}

} // verus!
