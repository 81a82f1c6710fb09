//! Physical table geometry: pockets and the diamond/inch scale.
//!
//! A `TableSpec` is the single source of truth for one table: its six
//! pockets, the cushion buffer, and `diamond_length`, the physical
//! length of one diamond unit. Every diamond-space quantity here is
//! derived from physical constants in inches divided by
//! `diamond_length`, never entered by hand, so both unit systems stay
//! consistent if the scale changes.

use crate::rat::{rat_div, rat_eqv, rat_mul, Rat};
use crate::ratio::{fits_i64, fits_i64_signed, Ratio};
use crate::units::{Diamond, Inches};
use vstd::math::abs;
use vstd::prelude::*;

verus! {

/// A kind of pocket.
#[derive(Clone, Copy, Debug, PartialEq, Eq, Structural)]
pub enum PocketType {
    /// One of the four corner pockets.
    Corner,
    /// One of the two side pockets.
    Side,
}

/// Physical specification of one pocket, in diamond units.
#[derive(Clone, Copy, Debug)]
pub struct PocketSpec {
    pub ty: PocketType,
    pub depth: Diamond,
    pub width: Diamond,
}

/// Physical specification of a pool table.
#[derive(Clone, Copy, Debug)]
pub struct TableSpec {
    /// The six pockets, clockwise from the top-right corner:
    /// top-right, right side, bottom-right, bottom-left, left side,
    /// top-left.
    pub pockets: [PocketSpec; 6],
    /// How far the cushion nose sits inside the sight line, in diamonds.
    pub cushion_diamond_buffer: Diamond,
    /// The physical length of one diamond unit on this table.
    pub diamond_length: Inches,
}

/// A failure to build a table description.
#[derive(Clone, Copy, Debug, PartialEq, Eq, Structural)]
pub enum GeometryError {
    /// The diamond length was zero or negative; no scale factor exists.
    NonPositiveDiamondLength,
}

/// The sight-to-nose offset of the cushion, in inches.
pub fn diamond_sight_nose_offset() -> (r: Inches)
    ensures
        r.wf(),
        r@ == (Rat { n: 59, d: 16 }),
{
    Inches { magnitude: Ratio { n: 59, d: 16 } }
}

/// Pocket depth of the modeled pocket cut, in inches.
pub fn gc4_pocket_depth() -> (r: Inches)
    ensures
        r.wf(),
        r@ == (Rat { n: 7, d: 5 }),
{
    Inches { magnitude: Ratio { n: 7, d: 5 } }
}

/// Corner pocket mouth width, in inches.
pub fn gc4_corner_pocket_width() -> (r: Inches)
    ensures
        r.wf(),
        r@ == (Rat { n: 9, d: 2 }),
{
    Inches { magnitude: Ratio { n: 9, d: 2 } }
}

/// Side pocket mouth width, in inches.
pub fn gc4_side_pocket_width() -> (r: Inches)
    ensures
        r.wf(),
        r@ == (Rat { n: 5, d: 1 }),
{
    Inches { magnitude: Ratio { n: 5, d: 1 } }
}

/// The radius of a standard ball, in inches.
pub fn typical_ball_radius() -> (r: Inches)
    ensures
        r.wf(),
        r@ == (Rat { n: 9, d: 8 }),
{
    Inches { magnitude: Ratio { n: 9, d: 8 } }
}

/// The scale factors small enough for every derived quantity to fit.
pub open spec fn diamond_length_in_range(len: Rat) -> bool {
    &&& abs(len.n) <= 1000000000000000
    &&& 1 <= len.d <= 1000000000000000
}

impl TableSpec {
    /// A valid table: a positive scale factor and well-formed parts.
    pub open spec fn wf(self) -> bool {
        &&& self.diamond_length.wf()
        &&& self.diamond_length@.n > 0
        &&& self.cushion_diamond_buffer.wf()
        &&& forall|i: int|
            0 <= i < 6 ==> (#[trigger] self.pockets[i]).depth.wf() && self.pockets[i].width.wf()
    }

    /// All pocket and cushion quantities carry the values derived from
    /// this table's scale factor.
    pub open spec fn derived_ok(self) -> bool {
        let len = self.diamond_length@;
        &&& rat_eqv(self.cushion_diamond_buffer@, rat_div(Rat { n: 59, d: 16 }, len))
        &&& forall|i: int|
            0 <= i < 6 ==> rat_eqv(
                (#[trigger] self.pockets[i]).depth@,
                rat_div(Rat { n: 7, d: 5 }, len),
            )
        &&& forall|i: int|
            0 <= i < 6 ==> ((#[trigger] self.pockets[i]).ty == (if i == 1 || i == 4 {
                PocketType::Side
            } else {
                PocketType::Corner
            }))
        &&& forall|i: int|
            0 <= i < 6 ==> rat_eqv(
                (#[trigger] self.pockets[i]).width@,
                if i == 1 || i == 4 {
                    rat_div(Rat { n: 5, d: 1 }, len)
                } else {
                    rat_div(Rat { n: 9, d: 2 }, len)
                },
            )
    }

    /// A corner pocket derived from a table's scale factor.
    pub fn brunswick_gc4_corner_pocket(diamond_length: Inches) -> (r: PocketSpec)
        requires
            diamond_length.wf(),
            diamond_length@.n > 0,
            diamond_length_in_range(diamond_length@),
        ensures
            r.ty == PocketType::Corner,
            r.depth.wf(),
            r.width.wf(),
            rat_eqv(r.depth@, rat_div(Rat { n: 7, d: 5 }, diamond_length@)),
            rat_eqv(r.width@, rat_div(Rat { n: 9, d: 2 }, diamond_length@)),
    {
        PocketSpec {
            ty: PocketType::Corner,
            depth: Diamond { magnitude: gc4_pocket_depth().magnitude.div(diamond_length.magnitude) },
            width: Diamond {
                magnitude: gc4_corner_pocket_width().magnitude.div(diamond_length.magnitude),
            },
        }
    }

    /// A side pocket derived from a table's scale factor.
    pub fn brunswick_gc4_side_pocket(diamond_length: Inches) -> (r: PocketSpec)
        requires
            diamond_length.wf(),
            diamond_length@.n > 0,
            diamond_length_in_range(diamond_length@),
        ensures
            r.ty == PocketType::Side,
            r.depth.wf(),
            r.width.wf(),
            rat_eqv(r.depth@, rat_div(Rat { n: 7, d: 5 }, diamond_length@)),
            rat_eqv(r.width@, rat_div(Rat { n: 5, d: 1 }, diamond_length@)),
    {
        PocketSpec {
            ty: PocketType::Side,
            depth: Diamond { magnitude: gc4_pocket_depth().magnitude.div(diamond_length.magnitude) },
            width: Diamond {
                magnitude: gc4_side_pocket_width().magnitude.div(diamond_length.magnitude),
            },
        }
    }

    /// Builds the table for a given positive scale factor; every derived
    /// quantity is an exact division of a physical constant by it.
    fn derive_table(diamond_length: Inches) -> (r: TableSpec)
        requires
            diamond_length.wf(),
            diamond_length@.n > 0,
            diamond_length_in_range(diamond_length@),
        ensures
            r.wf(),
            r.derived_ok(),
            r.diamond_length == diamond_length,
    {
        let cushion = Diamond {
            magnitude: diamond_sight_nose_offset().magnitude.div(diamond_length.magnitude),
        };
        let corner0 = Self::brunswick_gc4_corner_pocket(diamond_length);
        let side1 = Self::brunswick_gc4_side_pocket(diamond_length);
        let corner2 = Self::brunswick_gc4_corner_pocket(diamond_length);
        let corner3 = Self::brunswick_gc4_corner_pocket(diamond_length);
        let side4 = Self::brunswick_gc4_side_pocket(diamond_length);
        let corner5 = Self::brunswick_gc4_corner_pocket(diamond_length);
        let pockets = [corner0, side1, corner2, corner3, side4, corner5];
        TableSpec { pockets, cushion_diamond_buffer: cushion, diamond_length }
    }

    /// Builds a table description for any scale factor, rejecting a
    /// zero or negative `diamond_length` at construction time: exactly
    /// those inputs give the error, everything else succeeds.
    pub fn from_diamond_length(diamond_length: Inches) -> (r: Result<TableSpec, GeometryError>)
        requires
            diamond_length.wf(),
            diamond_length_in_range(diamond_length@),
        ensures
            diamond_length@.n > 0 <==> r is Ok,
            diamond_length@.n <= 0 <==> r == Result::<TableSpec, GeometryError>::Err(
                GeometryError::NonPositiveDiamondLength,
            ),
            r matches Ok(ts) ==> ts.wf() && ts.derived_ok() && ts.diamond_length
                == diamond_length,
    {
        if diamond_length.magnitude.n <= 0 {
            Err(GeometryError::NonPositiveDiamondLength)
        } else {
            Ok(Self::derive_table(diamond_length))
        }
    }

    /// A typical 9 foot Brunswick Gold Crown IV: one diamond spans
    /// twelve and a half inches.
    pub fn brunswick_gc4_9ft() -> (r: TableSpec)
        ensures
            r.wf(),
            r.derived_ok(),
            r.diamond_length@ == (Rat { n: 25, d: 2 }),
    {
        Self::derive_table(Inches { magnitude: Ratio { n: 25, d: 2 } })
    }

    /// Converts a table-relative distance to physical inches on this
    /// table: an exact scaling by `diamond_length`.
    pub fn diamond_to_inches(&self, val: Diamond) -> (r: Inches)
        requires
            self.wf(),
            val.wf(),
            fits_i64(rat_mul(val@, self.diamond_length@)),
        ensures
            r.wf(),
            rat_eqv(r@, rat_mul(val@, self.diamond_length@)),
    {
        Inches { magnitude: val.magnitude.mul(self.diamond_length.magnitude) }
    }

    /// Converts physical inches to table-relative distance on this
    /// table: an exact division by `diamond_length`.
    pub fn inches_to_diamond(&self, val: Inches) -> (r: Diamond)
        requires
            self.wf(),
            val.wf(),
            fits_i64_signed(rat_div(val@, self.diamond_length@)),
        ensures
            r.wf(),
            rat_eqv(r@, rat_div(val@, self.diamond_length@)),
            abs(r@.n) <= abs(rat_div(val@, self.diamond_length@).n),
            r@.d <= abs(rat_div(val@, self.diamond_length@).d),
    {
        Diamond { magnitude: val.magnitude.div(self.diamond_length.magnitude) }
    }
}

impl Default for TableSpec {
    /// The 9 foot Brunswick preset.
    fn default() -> (r: TableSpec)
        ensures
            r.wf(),
            r.derived_ok(),
            r.diamond_length@ == (Rat { n: 25, d: 2 }),
    {
        TableSpec::brunswick_gc4_9ft()
    }
}

/// Converting any diamond distance to inches and back on the same table
/// returns exactly the starting value, for every table whose scale
/// factor is nonzero.
pub proof fn lemma_unit_round_trip(d: Rat, len: Rat)
    requires
        len.n != 0,
        len.d != 0,
    ensures
        rat_eqv(rat_div(rat_mul(d, len), len), d),
{
    let m = rat_mul(d, len);
    assert((d.n * len.n) * len.d * d.d == d.n * ((d.d * len.d) * len.n)) by (nonlinear_arith);
}

} // verus!
