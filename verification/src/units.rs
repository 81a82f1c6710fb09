//! The two distance units of the table.
//!
//! `Diamond` measures table-relative distance: the playing surface is 4
//! diamonds wide and 8 long. `Inches` measures physical length. They are
//! distinct types so that a length can never be used on the wrong side of
//! the per-table scale factor; converting between them always goes
//! through a `TableSpec`.

use crate::rat::{rat_add, rat_div, rat_eqv, rat_int, rat_le, rat_lt, rat_mul, rat_neg, rat_sub,
    Rat};
use crate::ratio::{fits_i64, fits_i64_signed, Ratio};
use vstd::math::abs;
use vstd::prelude::*;

verus! {

/// A table-relative distance; one unit is a quarter of the table's width.
#[derive(Clone, Copy, Debug)]
pub struct Diamond {
    pub magnitude: Ratio,
}

/// A physical length in inches.
#[derive(Clone, Copy, Debug)]
pub struct Inches {
    pub magnitude: Ratio,
}

impl View for Diamond {
    type V = Rat;

    open spec fn view(&self) -> Rat {
        self.magnitude@
    }
}

impl View for Inches {
    type V = Rat;

    open spec fn view(&self) -> Rat {
        self.magnitude@
    }
}

impl Diamond {
    /// A valid stored value.
    pub open spec fn wf(self) -> bool {
        self.magnitude.wf()
    }

    /// The distance of `i` whole diamonds.
    pub fn from_int(i: i64) -> (r: Diamond)
        requires
            -(i64::MAX as int) <= i as int,
        ensures
            r.wf(),
            r@ == rat_int(i as int),
    {
        Diamond { magnitude: Ratio::from_int(i) }
    }

    /// Zero diamonds.
    pub fn zero() -> (r: Diamond)
        ensures
            r.wf(),
            r@ == rat_int(0),
    {
        Self::from_int(0)
    }

    /// One diamond.
    pub fn one() -> (r: Diamond)
        ensures
            r.wf(),
            r@ == rat_int(1),
    {
        Self::from_int(1)
    }

    /// Two diamonds.
    pub fn two() -> (r: Diamond)
        ensures
            r.wf(),
            r@ == rat_int(2),
    {
        Self::from_int(2)
    }

    /// Three diamonds.
    pub fn three() -> (r: Diamond)
        ensures
            r.wf(),
            r@ == rat_int(3),
    {
        Self::from_int(3)
    }

    /// Four diamonds: the full width of the table.
    pub fn four() -> (r: Diamond)
        ensures
            r.wf(),
            r@ == rat_int(4),
    {
        Self::from_int(4)
    }

    /// Five diamonds.
    pub fn five() -> (r: Diamond)
        ensures
            r.wf(),
            r@ == rat_int(5),
    {
        Self::from_int(5)
    }

    /// Six diamonds.
    pub fn six() -> (r: Diamond)
        ensures
            r.wf(),
            r@ == rat_int(6),
    {
        Self::from_int(6)
    }

    /// Seven diamonds.
    pub fn seven() -> (r: Diamond)
        ensures
            r.wf(),
            r@ == rat_int(7),
    {
        Self::from_int(7)
    }

    /// Eight diamonds: the full length of the table.
    pub fn eight() -> (r: Diamond)
        ensures
            r.wf(),
            r@ == rat_int(8),
    {
        Self::from_int(8)
    }

    /// Exact sum of two diamond distances.
    pub fn add(self, rhs: Diamond) -> (r: Diamond)
        requires
            self.wf(),
            rhs.wf(),
            fits_i64(rat_add(self@, rhs@)),
        ensures
            r.wf(),
            rat_eqv(r@, rat_add(self@, rhs@)),
            abs(r@.n) <= abs(rat_add(self@, rhs@).n),
            r@.d <= rat_add(self@, rhs@).d,
    {
        Diamond { magnitude: self.magnitude.add(rhs.magnitude) }
    }

    /// Exact difference of two diamond distances.
    pub fn sub(self, rhs: Diamond) -> (r: Diamond)
        requires
            self.wf(),
            rhs.wf(),
            fits_i64(rat_sub(self@, rhs@)),
        ensures
            r.wf(),
            rat_eqv(r@, rat_sub(self@, rhs@)),
            abs(r@.n) <= abs(rat_sub(self@, rhs@).n),
            r@.d <= rat_sub(self@, rhs@).d,
    {
        Diamond { magnitude: self.magnitude.sub(rhs.magnitude) }
    }

    /// Exact negation.
    pub fn neg(self) -> (r: Diamond)
        requires
            self.wf(),
        ensures
            r.wf(),
            r@ == rat_neg(self@),
    {
        Diamond { magnitude: self.magnitude.neg() }
    }

    /// Exact scaling by a dimensionless factor.
    pub fn scale(self, factor: Ratio) -> (r: Diamond)
        requires
            self.wf(),
            factor.wf(),
            fits_i64(rat_mul(self@, factor@)),
        ensures
            r.wf(),
            rat_eqv(r@, rat_mul(self@, factor@)),
            abs(r@.n) <= abs(rat_mul(self@, factor@).n),
            r@.d <= rat_mul(self@, factor@).d,
    {
        Diamond { magnitude: self.magnitude.mul(factor) }
    }

    /// Exact doubling.
    pub fn double(self) -> (r: Diamond)
        requires
            self.wf(),
            fits_i64(rat_mul(self@, rat_int(2))),
        ensures
            r.wf(),
            rat_eqv(r@, rat_mul(self@, rat_int(2))),
    {
        Diamond { magnitude: self.magnitude.double() }
    }

    /// Exact halving.
    pub fn half(self) -> (r: Diamond)
        requires
            self.wf(),
            2 * self@.d <= i64::MAX as int,
        ensures
            r.wf(),
            rat_eqv(r@, rat_mul(self@, Rat { n: 1, d: 2 })),
    {
        Diamond { magnitude: self.magnitude.half() }
    }

    /// Exact reciprocal; the value must be nonzero.
    pub fn inverse(self) -> (r: Diamond)
        requires
            self.wf(),
            self@.n != 0,
        ensures
            r.wf(),
            rat_eqv(r@, rat_div(rat_int(1), self@)),
    {
        Diamond { magnitude: self.magnitude.recip() }
    }

    /// Strict order on the denoted distances.
    pub fn lt(self, rhs: Diamond) -> (r: bool)
        requires
            self.wf(),
            rhs.wf(),
        ensures
            r == rat_lt(self@, rhs@),
    {
        self.magnitude.lt(rhs.magnitude)
    }

    /// Non-strict order on the denoted distances.
    pub fn le(self, rhs: Diamond) -> (r: bool)
        requires
            self.wf(),
            rhs.wf(),
        ensures
            r == rat_le(self@, rhs@),
    {
        self.magnitude.le(rhs.magnitude)
    }
}

impl Inches {
    /// A valid stored value.
    pub open spec fn wf(self) -> bool {
        self.magnitude.wf()
    }

    /// The length of `i` whole inches.
    pub fn from_int(i: i64) -> (r: Inches)
        requires
            -(i64::MAX as int) <= i as int,
        ensures
            r.wf(),
            r@ == rat_int(i as int),
    {
        Inches { magnitude: Ratio::from_int(i) }
    }

    /// The length `n / d` inches.
    pub fn new(n: i64, d: i64) -> (r: Inches)
        requires
            d >= 1,
            -(i64::MAX as int) <= n as int,
        ensures
            r.wf(),
            rat_eqv(r@, Rat { n: n as int, d: d as int }),
            abs(r@.n) <= abs(n as int),
            r@.d <= d as int,
    {
        Inches { magnitude: Ratio::new(n, d) }
    }

    /// Exact sum of two lengths.
    pub fn add(self, rhs: Inches) -> (r: Inches)
        requires
            self.wf(),
            rhs.wf(),
            fits_i64(rat_add(self@, rhs@)),
        ensures
            r.wf(),
            rat_eqv(r@, rat_add(self@, rhs@)),
            abs(r@.n) <= abs(rat_add(self@, rhs@).n),
            r@.d <= rat_add(self@, rhs@).d,
    {
        Inches { magnitude: self.magnitude.add(rhs.magnitude) }
    }

    /// Exact difference of two lengths.
    pub fn sub(self, rhs: Inches) -> (r: Inches)
        requires
            self.wf(),
            rhs.wf(),
            fits_i64(rat_sub(self@, rhs@)),
        ensures
            r.wf(),
            rat_eqv(r@, rat_sub(self@, rhs@)),
            abs(r@.n) <= abs(rat_sub(self@, rhs@).n),
            r@.d <= rat_sub(self@, rhs@).d,
    {
        Inches { magnitude: self.magnitude.sub(rhs.magnitude) }
    }

    /// Exact negation.
    pub fn neg(self) -> (r: Inches)
        requires
            self.wf(),
        ensures
            r.wf(),
            r@ == rat_neg(self@),
    {
        Inches { magnitude: self.magnitude.neg() }
    }

    /// Exact doubling.
    pub fn double(self) -> (r: Inches)
        requires
            self.wf(),
            fits_i64(rat_mul(self@, rat_int(2))),
        ensures
            r.wf(),
            rat_eqv(r@, rat_mul(self@, rat_int(2))),
    {
        Inches { magnitude: self.magnitude.double() }
    }

    /// Exact halving.
    pub fn half(self) -> (r: Inches)
        requires
            self.wf(),
            2 * self@.d <= i64::MAX as int,
        ensures
            r.wf(),
            rat_eqv(r@, rat_mul(self@, Rat { n: 1, d: 2 })),
    {
        Inches { magnitude: self.magnitude.half() }
    }

    /// Exact division by a dimensionless nonzero factor.
    pub fn div_by(self, factor: Ratio) -> (r: Inches)
        requires
            self.wf(),
            factor.wf(),
            factor@.n != 0,
            fits_i64_signed(rat_div(self@, factor@)),
        ensures
            r.wf(),
            rat_eqv(r@, rat_div(self@, factor@)),
    {
        Inches { magnitude: self.magnitude.div(factor) }
    }

    /// Strict order on the denoted lengths.
    pub fn lt(self, rhs: Inches) -> (r: bool)
        requires
            self.wf(),
            rhs.wf(),
        ensures
            r == rat_lt(self@, rhs@),
    {
        self.magnitude.lt(rhs.magnitude)
    }

    /// Non-strict order on the denoted lengths.
    pub fn le(self, rhs: Inches) -> (r: bool)
        requires
            self.wf(),
            rhs.wf(),
        ensures
            r == rat_le(self@, rhs@),
    {
        self.magnitude.le(rhs.magnitude)
    }
}

impl PartialEq for Diamond {
    /// Equality of the denoted distances, independent of representation.
    fn eq(&self, other: &Diamond) -> (r: bool) {
        self.magnitude == other.magnitude
    }
}

impl vstd::std_specs::cmp::PartialEqSpecImpl for Diamond {
    open spec fn obeys_eq_spec() -> bool {
        true
    }

    open spec fn eq_spec(&self, other: &Diamond) -> bool {
        rat_eqv(self@, other@)
    }
}

impl PartialEq for Inches {
    /// Equality of the denoted lengths, independent of representation.
    fn eq(&self, other: &Inches) -> (r: bool) {
        self.magnitude == other.magnitude
    }
}

impl vstd::std_specs::cmp::PartialEqSpecImpl for Inches {
    open spec fn obeys_eq_spec() -> bool {
        true
    }

    open spec fn eq_spec(&self, other: &Inches) -> bool {
        rat_eqv(self@, other@)
    }
}

impl Default for Diamond {
    /// Zero diamonds.
    fn default() -> (r: Diamond)
        ensures
            r.wf(),
            r@ == rat_int(0),
    {
        Diamond::zero()
    }
}

impl Default for Inches {
    /// Zero inches.
    fn default() -> (r: Inches)
        ensures
            r.wf(),
            r@ == rat_int(0),
    {
        Inches::from_int(0)
    }
}

impl From<u8> for Diamond {
    /// The distance of `value` whole diamonds.
    fn from(value: u8) -> (r: Diamond) {
        Diamond { magnitude: Ratio::from_int(value as i64) }
    }
}

impl vstd::std_specs::convert::FromSpecImpl<u8> for Diamond {
    open spec fn obeys_from_spec() -> bool {
        true
    }

    open spec fn from_spec(v: u8) -> Diamond {
        Diamond { magnitude: Ratio { n: v as i64, d: 1 } }
    }
}

} // verus!
