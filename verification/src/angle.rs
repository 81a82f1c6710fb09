//! Angles and the trigonometry of shot planning.
//!
//! An `Angle` is measured clockwise from north (the direction of
//! increasing `y`): 0 degrees points up the table, 90 right, 180 down,
//! 270 left. It is stored exactly as a whole number of thousandths of a
//! degree in `[0, 360000)`; every published angle is quantized to that
//! resolution.
//!
//! The sine and cosine used for polar translation are rational
//! approximations (a quadrant-reduced Bhaskara ratio, quantized to six
//! decimal places). They are exact at the four cardinal directions, and
//! the quadrant reduction makes `sin(flipped(a)) == -sin(a)` hold
//! exactly, so translating out and back along a flipped angle cancels
//! without any rounding drift.

use crate::rat::{lemma_neg_eqv, rat_eqv, rat_neg, Rat};
use crate::ratio::Ratio;
use crate::units::Diamond;
use vstd::arithmetic::div_mod::{lemma_div_is_ordered, lemma_div_pos_is_pos,
    lemma_fundamental_div_mod_converse, lemma_multiply_divide_lt};
use vstd::arithmetic::mul::{lemma_mul_nonnegative, lemma_mul_upper_bound};
use vstd::prelude::*;

verus! {

/// A direction on the table, clockwise from north, held in thousandths
/// of a degree within `[0, 360000)`.
#[derive(Clone, Copy, Debug, PartialEq, Eq, Structural)]
pub struct Angle {
    pub millidegrees: i64,
}

/// The opposite direction, still within one full turn.
pub open spec fn flip_spec(m: int) -> int {
    if m < 180000 {
        m + 180000
    } else {
        m - 180000
    }
}

/// Bhaskara's sine ratio for a first-quadrant angle of `x` thousandths
/// of a degree, rounded half-up to six decimal places (so scaled by
/// ten to the sixth).
pub open spec fn sin_q1_scaled(x: int) -> int {
    let p = x * (180000 - x);
    (8 * p * 1000000 + (40500000000 - p)) / (2 * (40500000000 - p))
}

/// Sine of `m` thousandths of a degree (clockwise from north), scaled by
/// ten to the sixth, by quadrant reduction of `sin_q1_scaled`.
pub open spec fn sin_scaled(m: int) -> int {
    if m < 90000 {
        sin_q1_scaled(m)
    } else if m < 180000 {
        sin_q1_scaled(180000 - m)
    } else if m < 270000 {
        -sin_q1_scaled(m - 180000)
    } else {
        -sin_q1_scaled(360000 - m)
    }
}

/// The angle whose sine gives the cosine of `m`: a quarter turn onward.
pub open spec fn cos_shift_spec(m: int) -> int {
    if m < 270000 {
        m + 90000
    } else {
        m - 270000
    }
}

/// Cosine of `m` thousandths of a degree, scaled by ten to the sixth.
pub open spec fn cos_scaled(m: int) -> int {
    sin_scaled(cos_shift_spec(m))
}

/// The first-quadrant sine ratio stays within `[0, 1]` at scale.
pub proof fn lemma_sin_q1_bounds(x: int)
    requires
        0 <= x <= 90000,
    ensures
        0 <= sin_q1_scaled(x) <= 1000000,
{
    let p = x * (180000 - x);
    assert(0 <= p <= 8100000000) by (nonlinear_arith)
        requires
            0 <= x <= 90000,
            p == x * (180000 - x),
    ;
    let num = 8 * p * 1000000 + (40500000000 - p);
    let den = 2 * (40500000000 - p);
    lemma_div_pos_is_pos(num, den);
    lemma_multiply_divide_lt(num, den, 1000001);
}

/// The quadrant-reduced sine stays within `[-1, 1]` at scale.
pub proof fn lemma_sin_scaled_bounds(m: int)
    requires
        0 <= m < 360000,
    ensures
        -1000000 <= sin_scaled(m) <= 1000000,
{
    if m < 90000 {
        lemma_sin_q1_bounds(m);
    } else if m < 180000 {
        lemma_sin_q1_bounds(180000 - m);
    } else if m < 270000 {
        lemma_sin_q1_bounds(m - 180000);
    } else {
        lemma_sin_q1_bounds(360000 - m);
    }
}

/// Flipping an angle negates its sine exactly.
pub proof fn lemma_sin_flip(m: int)
    requires
        0 <= m < 360000,
    ensures
        sin_scaled(flip_spec(m)) == -sin_scaled(m),
{
}

/// Flipping an angle negates its cosine exactly.
pub proof fn lemma_cos_flip(m: int)
    requires
        0 <= m < 360000,
    ensures
        cos_scaled(flip_spec(m)) == -cos_scaled(m),
{
}

/// The exact sine values at the four cardinal directions.
pub proof fn lemma_sin_cardinal()
    ensures
        sin_scaled(0) == 0,
        sin_scaled(90000) == 1000000,
        sin_scaled(180000) == 0,
        sin_scaled(270000) == -1000000,
{
    assert(40500000000int / 81000000000 == 0) by {
        lemma_div_pos_is_pos(40500000000, 81000000000);
        lemma_multiply_divide_lt(40500000000, 81000000000, 1);
    }
    assert(sin_q1_scaled(0) == 0);
    assert(64800032400000000int / 64800000000 == 1000000) by {
        lemma_fundamental_div_mod_converse(64800032400000000, 64800000000, 1000000, 32400000000);
    }
    assert(sin_q1_scaled(90000) == 1000000);
}

/// The exact cosine values at the four cardinal directions.
pub proof fn lemma_cos_cardinal()
    ensures
        cos_scaled(0) == 1000000,
        cos_scaled(90000) == 0,
        cos_scaled(180000) == -1000000,
        cos_scaled(270000) == 0,
{
    lemma_sin_cardinal();
}

impl Angle {
    /// A valid stored direction: within one clockwise turn from north.
    pub open spec fn wf(self) -> bool {
        0 <= self.millidegrees < 360000
    }

    /// The direction `m` thousandths of a degree clockwise from north.
    pub fn from_millidegrees(m: i64) -> (r: Angle)
        requires
            0 <= m < 360000,
        ensures
            r.wf(),
            r.millidegrees == m,
    {
        Angle { millidegrees: m }
    }

    /// The direction `d` whole degrees clockwise from north.
    pub fn from_degrees(d: i64) -> (r: Angle)
        requires
            0 <= d < 360,
        ensures
            r.wf(),
            r.millidegrees == 1000 * d,
    {
        Angle { millidegrees: 1000 * d }
    }

    /// The angle in degrees, as an exact scalar.
    pub fn degrees(self) -> (r: Ratio)
        requires
            self.wf(),
        ensures
            r.wf(),
            rat_eqv(r@, Rat { n: self.millidegrees as int, d: 1000 }),
    {
        Ratio::new(self.millidegrees, 1000)
    }

    /// The opposite direction: half a turn further, wrapped into range.
    pub fn flipped(self) -> (r: Angle)
        requires
            self.wf(),
        ensures
            r.wf(),
            r.millidegrees == flip_spec(self.millidegrees as int),
    {
        if self.millidegrees < 180000 {
            Angle { millidegrees: self.millidegrees + 180000 }
        } else {
            Angle { millidegrees: self.millidegrees - 180000 }
        }
    }

    /// Flipping twice restores the original direction exactly.
    pub proof fn lemma_flipped_involution(self)
        requires
            self.wf(),
        ensures
            flip_spec(flip_spec(self.millidegrees as int)) == self.millidegrees,
    {
    }

    /// The sine of this direction, exact at the cardinal directions and
    /// within one millionth elsewhere; the denominator is always ten to
    /// the sixth, so equal angles give structurally equal sines.
    pub fn sin(self) -> (r: Ratio)
        requires
            self.wf(),
        ensures
            r.wf(),
            r@ == (Rat { n: sin_scaled(self.millidegrees as int), d: 1000000 }),
    {
        let m = self.millidegrees;
        let s: i64 = if m < 90000 {
            sin_q1_exec(m as u64)
        } else if m < 180000 {
            sin_q1_exec((180000 - m) as u64)
        } else if m < 270000 {
            -sin_q1_exec((m - 180000) as u64)
        } else {
            -sin_q1_exec((360000 - m) as u64)
        };
        Ratio { n: s, d: 1000000 }
    }

    /// The cosine of this direction, with the same guarantees as `sin`.
    pub fn cos(self) -> (r: Ratio)
        requires
            self.wf(),
        ensures
            r.wf(),
            r@ == (Rat { n: cos_scaled(self.millidegrees as int), d: 1000000 }),
    {
        let m = self.millidegrees;
        let shifted = if m < 270000 {
            Angle { millidegrees: m + 90000 }
        } else {
            Angle { millidegrees: m - 270000 }
        };
        shifted.sin()
    }
}

/// Bhaskara's ratio for a first-quadrant angle, evaluated exactly in
/// integer arithmetic.
fn sin_q1_exec(x: u64) -> (r: i64)
    requires
        x <= 90000,
    ensures
        r as int == sin_q1_scaled(x as int),
        0 <= r <= 1000000,
{
    proof {
        assert(0 <= (x as int) * (180000 - x as int) <= 8100000000) by (nonlinear_arith)
            requires
                0 <= x as int <= 90000,
        ;
    }
    let p: u64 = x * (180000 - x);
    let num: u64 = 8 * p * 1000000 + (40500000000 - p);
    let den: u64 = 2 * (40500000000 - p);
    let q: u64 = num / den;
    proof {
        lemma_sin_q1_bounds(x as int);
    }
    q as i64
}

/// First-octant direction finding: for `0 <= a <= b`, the angle from
/// north of a displacement whose sideways component is `a` and forward
/// component is `b`, in thousandths of a degree within `[0, 45000]`.
/// Exact at the axis (`a == 0`) and the diagonal (`a == b`); between
/// them a quadratic arctangent approximation is used.
fn atan_octant_mdeg(a0: u128, b0: u128) -> (r: i64)
    requires
        a0 <= b0,
        b0 >= 1,
    ensures
        0 <= r <= 45000,
        a0 == 0 ==> r == 0,
        a0 == b0 ==> r == 45000,
{
    let mut a = a0;
    let mut b = b0;
    while b >= 0x1000_0000_0000_0000
        invariant
            a <= b,
            b >= 1,
            a0 == 0 ==> a == 0,
            a0 == b0 ==> a == b,
        decreases b,
    {
        proof {
            lemma_div_is_ordered(a as int, b as int, 2);
            lemma_div_pos_is_pos(b as int, 2);
        }
        a = a / 2;
        b = b / 2;
    }
    let q: u128 = (2000 * a + b) / (2 * b);
    proof {
        lemma_div_pos_is_pos(2000 * (a as int) + b as int, 2 * (b as int));
        lemma_multiply_divide_lt(2000 * (a as int) + b as int, 2 * (b as int), 1001);
        if a == 0 {
            lemma_multiply_divide_lt(b as int, 2 * (b as int), 1);
        }
        if a == b {
            lemma_fundamental_div_mod_converse(
                2000 * (a as int) + b as int,
                2 * (b as int),
                1000,
                b as int,
            );
        }
    }
    let qs: u64 = q as u64;
    let w: u64 = 1000 - qs;
    proof {
        lemma_mul_upper_bound(qs as int, 1000, w as int, 1000);
        lemma_mul_nonnegative(qs as int, w as int);
        assert(15640 * (qs as int) * (w as int) == 15640 * ((qs as int) * (w as int)))
            by (nonlinear_arith);
    }
    let t: u64 = (15640 * qs * w) / 1000000;
    proof {
        lemma_div_pos_is_pos(15640 * (qs as int) * (w as int), 1000000);
        assert(15640 * (qs as int) * (w as int) <= (45000000 * (w as int))) by (nonlinear_arith)
            requires
                0 <= qs as int <= 1000,
                0 <= w as int,
        ;
        lemma_div_is_ordered(15640 * (qs as int) * (w as int), 45000000 * (w as int), 1000000);
        lemma_fundamental_div_mod_converse(45000000 * (w as int), 1000000, 45 * (w as int), 0);
        if qs == 0 {
            assert(15640 * (qs as int) * (w as int) == 0) by (nonlinear_arith)
                requires
                    qs as int == 0,
            ;
        }
        if qs == 1000 {
            assert(15640 * (qs as int) * (w as int) == 0) by (nonlinear_arith)
                requires
                    w as int == 0,
            ;
        }
    }
    let f: u64 = 45 * qs + t;
    f as i64
}

/// The angle from north of the displacement `(ax, ay)` within the first
/// quadrant (both components nonnegative, not both zero), in thousandths
/// of a degree within `[0, 90000]`. Exact on the axes and the diagonal.
fn quadrant_mdeg(ax: Ratio, ay: Ratio) -> (r: i64)
    requires
        ax.wf(),
        ay.wf(),
        ax@.n >= 0,
        ay@.n >= 0,
        !(ax@.n == 0 && ay@.n == 0),
    ensures
        0 <= r <= 90000,
        ax@.n == 0 ==> r == 0,
        ay@.n == 0 ==> r == 90000,
        rat_eqv(ax@, ay@) ==> r == 45000,
{
    proof {
        lemma_mul_nonnegative(ax@.n, ay@.d);
        lemma_mul_nonnegative(ay@.n, ax@.d);
        if ax@.n == 0 {
            assert(ax@.n * ay@.d == 0) by (nonlinear_arith)
                requires
                    ax@.n == 0,
            ;
        }
        if ay@.n == 0 {
            assert(ay@.n * ax@.d == 0) by (nonlinear_arith)
                requires
                    ay@.n == 0,
            ;
        }
        if ax@.n > 0 {
            assert(ax@.n * ay@.d > 0) by (nonlinear_arith)
                requires
                    ax@.n > 0,
                    ay@.d > 0,
            ;
        }
        if ay@.n > 0 {
            assert(ay@.n * ax@.d > 0) by (nonlinear_arith)
                requires
                    ay@.n > 0,
                    ax@.d > 0,
            ;
        }
    }
    let cross_x: i128 = mul_i128(ax.n, ay.d);
    let cross_y: i128 = mul_i128(ay.n, ax.d);
    if cross_x <= cross_y {
        atan_octant_mdeg(cross_x as u128, cross_y as u128)
    } else {
        90000 - atan_octant_mdeg(cross_y as u128, cross_x as u128)
    }
}

/// The product of two `i64`s, widened so it cannot overflow.
fn mul_i128(x: i64, y: i64) -> (r: i128)
    ensures
        r as int == (x as int) * (y as int),
{
    proof {
        assert(-(0x4000_0000_0000_0000_0000_0000_0000_0000)
            <= (x as int) * (y as int)
            <= 0x4000_0000_0000_0000_0000_0000_0000_0000) by (nonlinear_arith)
            requires
                i64::MIN as int <= x as int <= i64::MAX as int,
                i64::MIN as int <= y as int <= i64::MAX as int,
        ;
    }
    (x as i128) * (y as i128)
}

impl Angle {
    /// The direction of the displacement `(dx, dy)`, measured clockwise
    /// from north. Exact on the four axes and the four diagonals; in
    /// between, correct to the quadrant and approximated to a few
    /// hundredths of a degree. A zero displacement has no direction and
    /// yields north by convention.
    pub fn from_north(dx: Diamond, dy: Diamond) -> (r: Angle)
        requires
            dx.wf(),
            dy.wf(),
        ensures
            r.wf(),
            dx@.n == 0 && dy@.n == 0 ==> r.millidegrees == 0,
            dx@.n == 0 && dy@.n > 0 ==> r.millidegrees == 0,
            dx@.n > 0 && dy@.n == 0 ==> r.millidegrees == 90000,
            dx@.n == 0 && dy@.n < 0 ==> r.millidegrees == 180000,
            dx@.n < 0 && dy@.n == 0 ==> r.millidegrees == 270000,
            dx@.n >= 0 && dy@.n >= 0 ==> 0 <= r.millidegrees <= 90000,
            dx@.n >= 0 && dy@.n < 0 ==> 90000 <= r.millidegrees <= 180000,
            dx@.n < 0 && dy@.n <= 0 ==> 180000 <= r.millidegrees <= 270000,
            dx@.n < 0 && dy@.n > 0 ==> (270000 <= r.millidegrees < 360000 || r.millidegrees
                == 0),
            dx@.n > 0 && dy@.n > 0 && rat_eqv(dx@, dy@) ==> r.millidegrees == 45000,
            dx@.n > 0 && dy@.n < 0 && rat_eqv(dx@, rat_neg(dy@)) ==> r.millidegrees == 135000,
            dx@.n < 0 && dy@.n < 0 && rat_eqv(dx@, dy@) ==> r.millidegrees == 225000,
            dx@.n < 0 && dy@.n > 0 && rat_eqv(rat_neg(dx@), dy@) ==> r.millidegrees == 315000,
    {
        let x = dx.magnitude;
        let y = dy.magnitude;
        if x.n == 0 && y.n == 0 {
            Angle { millidegrees: 0 }
        } else if x.n >= 0 && y.n >= 0 {
            Angle { millidegrees: quadrant_mdeg(x, y) }
        } else if x.n >= 0 {
            let yn = y.neg();
            let base = quadrant_mdeg(x, yn);
            Angle { millidegrees: 180000 - base }
        } else if y.n <= 0 {
            let xn = x.neg();
            let yn = y.neg();
            proof {
                if rat_eqv(x@, y@) {
                    lemma_neg_eqv(x@, y@);
                }
            }
            let base = quadrant_mdeg(xn, yn);
            Angle { millidegrees: 180000 + base }
        } else {
            let xn = x.neg();
            let base = quadrant_mdeg(xn, y);
            if base == 0 {
                Angle { millidegrees: 0 }
            } else {
                Angle { millidegrees: 360000 - base }
            }
        }
    }
}

} // verus!
