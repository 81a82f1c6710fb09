//! Pocket identities and aiming targets.
//!
//! Each pocket has a nominal anchor diamond (the four corners and the
//! two side-rail midpoints). For corner pockets the best aim point is
//! not the anchor itself: the jaw cut moves it slightly toward the
//! table's interior, modeled here as an eighth of a diamond inward on
//! each axis. Side pockets are aimed at their anchor unmodified.

use crate::angle::Angle;
use crate::position::Position;
use crate::rat::{lemma_sign_eqv, rat_eqv, rat_int, rat_sub, Rat};
use crate::ratio::{fits_after, lemma_fits_add, Ratio};
use crate::units::Diamond;
use vstd::math::abs;
use vstd::prelude::*;

verus! {

/// One of the six pockets, named by its place on the table.
#[derive(Clone, Copy, Debug, PartialEq, Eq, Structural)]
pub enum Pocket {
    TopRight,
    RightSide,
    BottomRight,
    BottomLeft,
    LeftSide,
    TopLeft,
}

/// The position of a pocket in a table's clockwise pocket array.
pub open spec fn pocket_index_spec(p: Pocket) -> int {
    match p {
        Pocket::TopRight => 0,
        Pocket::RightSide => 1,
        Pocket::BottomRight => 2,
        Pocket::BottomLeft => 3,
        Pocket::LeftSide => 4,
        Pocket::TopLeft => 5,
    }
}

/// The sideways coordinate of a pocket's anchor diamond.
pub open spec fn anchor_x(p: Pocket) -> Rat {
    match p {
        Pocket::TopRight => rat_int(4),
        Pocket::RightSide => rat_int(4),
        Pocket::BottomRight => rat_int(4),
        Pocket::BottomLeft => rat_int(0),
        Pocket::LeftSide => rat_int(0),
        Pocket::TopLeft => rat_int(0),
    }
}

/// The lengthwise coordinate of a pocket's anchor diamond.
pub open spec fn anchor_y(p: Pocket) -> Rat {
    match p {
        Pocket::TopRight => rat_int(8),
        Pocket::RightSide => rat_int(4),
        Pocket::BottomRight => rat_int(0),
        Pocket::BottomLeft => rat_int(0),
        Pocket::LeftSide => rat_int(4),
        Pocket::TopLeft => rat_int(8),
    }
}

/// The sideways coordinate of a pocket's aiming center, in diamonds.
pub open spec fn aim_x(p: Pocket) -> Rat {
    match p {
        Pocket::TopRight => Rat { n: 31, d: 8 },
        Pocket::RightSide => Rat { n: 4, d: 1 },
        Pocket::BottomRight => Rat { n: 31, d: 8 },
        Pocket::BottomLeft => Rat { n: 1, d: 8 },
        Pocket::LeftSide => Rat { n: 0, d: 1 },
        Pocket::TopLeft => Rat { n: 1, d: 8 },
    }
}

/// The lengthwise coordinate of a pocket's aiming center, in diamonds.
pub open spec fn aim_y(p: Pocket) -> Rat {
    match p {
        Pocket::TopRight => Rat { n: 63, d: 8 },
        Pocket::RightSide => Rat { n: 4, d: 1 },
        Pocket::BottomRight => Rat { n: 1, d: 8 },
        Pocket::BottomLeft => Rat { n: 1, d: 8 },
        Pocket::LeftSide => Rat { n: 4, d: 1 },
        Pocket::TopLeft => Rat { n: 63, d: 8 },
    }
}

impl Pocket {
    /// This pocket's slot in a table's clockwise pocket array.
    pub fn index(self) -> (r: usize)
        ensures
            r == pocket_index_spec(self),
    {
        match self {
            Pocket::TopRight => 0,
            Pocket::RightSide => 1,
            Pocket::BottomRight => 2,
            Pocket::BottomLeft => 3,
            Pocket::LeftSide => 4,
            Pocket::TopLeft => 5,
        }
    }

    /// The nominal anchor diamond of this pocket.
    pub fn anchor(self) -> (r: Position)
        ensures
            r.wf(),
            r.resolved(),
            r.x@ == anchor_x(self),
            r.y@ == anchor_y(self),
    {
        match self {
            Pocket::TopRight => Position::at_diamonds(4, 8),
            Pocket::RightSide => Position::at_diamonds(4, 4),
            Pocket::BottomRight => Position::at_diamonds(4, 0),
            Pocket::BottomLeft => Position::at_diamonds(0, 0),
            Pocket::LeftSide => Position::at_diamonds(0, 4),
            Pocket::TopLeft => Position::at_diamonds(0, 8),
        }
    }

    /// The point to aim at to pot a ball into this pocket. For a corner
    /// pocket the anchor is offset an eighth of a diamond toward the
    /// table's interior on each axis, the inward direction being read
    /// off `direction_from_center` of the anchor; a side pocket keeps
    /// its anchor.
    pub fn aiming_center(self) -> (r: Position)
        ensures
            r.wf(),
            r.resolved(),
            rat_eqv(r.x@, aim_x(self)),
            rat_eqv(r.y@, aim_y(self)),
            abs(r.x@.n) <= 63,
            1 <= r.x@.d <= 8,
            abs(r.y@.n) <= 63,
            1 <= r.y@.d <= 8,
    {
        let anchor = self.anchor();
        match self {
            Pocket::RightSide | Pocket::LeftSide => anchor,
            _ => {
                let (positive_x, positive_y) = anchor.direction_from_center();
                let off = Diamond { magnitude: Ratio { n: 1, d: 8 } };
                let x = if positive_x {
                    anchor.x.sub(off)
                } else {
                    anchor.x.add(off)
                };
                let y = if positive_y {
                    anchor.y.sub(off)
                } else {
                    anchor.y.add(off)
                };
                Position { x, y, unresolved_x_shift: None, unresolved_y_shift: None }
            },
        }
    }
}

/// Whether a position's coordinates leave room to take a displacement
/// to any pocket's aiming center.
pub open spec fn can_aim(p: Position) -> bool {
    &&& fits_after(p.x@, 63, 8)
    &&& fits_after(p.y@, 63, 8)
}

impl Position {
    /// The direction from this position toward the given pocket's
    /// aiming center, clockwise from north. Exact whenever the pocket
    /// lies straight north, east, south or west of here; otherwise
    /// correct to the quadrant.
    pub fn angle_to_pocket(&self, pocket: Pocket) -> (r: Angle)
        requires
            self.wf(),
            self.resolved(),
            can_aim(*self),
        ensures
            r.wf(),
            ({
                let ddx = rat_sub(aim_x(pocket), self.x@);
                let ddy = rat_sub(aim_y(pocket), self.y@);
                &&& (ddx.n == 0 && ddy.n > 0 ==> r.millidegrees == 0)
                &&& (ddx.n > 0 && ddy.n == 0 ==> r.millidegrees == 90000)
                &&& (ddx.n == 0 && ddy.n < 0 ==> r.millidegrees == 180000)
                &&& (ddx.n < 0 && ddy.n == 0 ==> r.millidegrees == 270000)
                &&& (ddx.n >= 0 && ddy.n >= 0 ==> 0 <= r.millidegrees <= 90000)
                &&& (ddx.n >= 0 && ddy.n < 0 ==> 90000 <= r.millidegrees <= 180000)
                &&& (ddx.n < 0 && ddy.n <= 0 ==> 180000 <= r.millidegrees <= 270000)
                &&& (ddx.n < 0 && ddy.n > 0 ==> (270000 <= r.millidegrees < 360000
                    || r.millidegrees == 0))
            }),
    {
        let ghost ddx = rat_sub(aim_x(pocket), self.x@);
        let ghost ddy = rat_sub(aim_y(pocket), self.y@);
        let target = pocket.aiming_center();
        proof {
            lemma_fits_add(self.x@, target.x@, 63, 8);
            lemma_fits_add(self.y@, target.y@, 63, 8);
        }
        let d = self.displacement(&target);
        proof {
            crate::rat::lemma_sub_eqv(target.x@, self.x@, aim_x(pocket), self.x@);
            crate::rat::lemma_pos_mul(target.x@.d, self.x@.d);
            crate::rat::lemma_eqv_trans(d.dx@, rat_sub(target.x@, self.x@), ddx);
            crate::rat::lemma_sub_eqv(target.y@, self.y@, aim_y(pocket), self.y@);
            crate::rat::lemma_pos_mul(target.y@.d, self.y@.d);
            crate::rat::lemma_eqv_trans(d.dy@, rat_sub(target.y@, self.y@), ddy);
            assert(ddx.d > 0) by (nonlinear_arith)
                requires
                    aim_x(pocket).d > 0,
                    self.x@.d > 0,
                    ddx.d == aim_x(pocket).d * self.x@.d,
            ;
            assert(ddy.d > 0) by (nonlinear_arith)
                requires
                    aim_y(pocket).d > 0,
                    self.y@.d > 0,
                    ddy.d == aim_y(pocket).d * self.y@.d,
            ;
            lemma_sign_eqv(d.dx@, ddx);
            lemma_sign_eqv(d.dy@, ddy);
        }
        Angle::from_north(d.dx, d.dy)
    }

    /// The direction a ball at this position travels away from the
    /// given pocket: the flip of `angle_to_pocket`.
    pub fn angle_from_pocket(&self, pocket: Pocket) -> (r: Angle)
        requires
            self.wf(),
            self.resolved(),
            can_aim(*self),
        ensures
            r.wf(),
            ({
                let ddx = rat_sub(aim_x(pocket), self.x@);
                let ddy = rat_sub(aim_y(pocket), self.y@);
                &&& (ddx.n == 0 && ddy.n > 0 ==> r.millidegrees == 180000)
                &&& (ddx.n > 0 && ddy.n == 0 ==> r.millidegrees == 270000)
                &&& (ddx.n == 0 && ddy.n < 0 ==> r.millidegrees == 0)
                &&& (ddx.n < 0 && ddy.n == 0 ==> r.millidegrees == 90000)
            }),
    {
        self.angle_to_pocket(pocket).flipped()
    }
}

} // verus!
