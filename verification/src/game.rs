//! Balls, rails, and the state of a game.
//!
//! `GameState` owns a table description and the balls on it. Balls are
//! placed (racked, frozen to a rail, or set directly), their pending
//! physical shifts are resolved in bulk against the table's scale
//! factor, and the resolved diamond-space positions are then ready for
//! a renderer.

use crate::position::{can_resolve, resolved_delta, round4_abs, within_million, Displacement,
    Position};
use crate::rat::{lemma_eqv_trans, lemma_le_eqv, lemma_pos_mul, rat_add, rat_div, rat_eqv,
    rat_int, rat_sub, Rat};
use crate::ratio::{fits_after, fits_i64, fits_i64_signed, lemma_fits_add, Ratio};
use crate::table::TableSpec;
use crate::units::{Diamond, Inches};
use vstd::math::abs;
use vstd::prelude::*;

verus! {

/// A kind of ball: the cue ball or one of the nine object balls.
#[derive(Clone, Copy, Debug, PartialEq, Eq, Structural)]
pub enum BallType {
    One,
    Two,
    Three,
    Four,
    Five,
    Six,
    Seven,
    Eight,
    Nine,
    Cue,
}

/// Physical specification of a ball.
#[derive(Clone, Copy, Debug)]
pub struct BallSpec {
    pub radius: Inches,
}

impl BallSpec {
    /// A valid specification: a well-formed radius.
    pub open spec fn wf(self) -> bool {
        self.radius.wf()
    }
}

impl Default for BallSpec {
    /// The standard ball: one and one-eighth inch radius.
    fn default() -> (r: BallSpec)
        ensures
            r.wf(),
            r.radius@ == (Rat { n: 9, d: 8 }),
    {
        BallSpec { radius: Inches { magnitude: Ratio { n: 9, d: 8 } } }
    }
}

/// A ball on the table: its kind, position, and physical spec.
#[derive(Clone, Copy, Debug)]
pub struct Ball {
    pub ty: BallType,
    pub position: Position,
    pub spec: BallSpec,
}

impl Ball {
    /// A valid ball.
    pub open spec fn wf(self) -> bool {
        &&& self.position.wf()
        &&& self.spec.wf()
    }

    /// The displacement from this ball's center to another's; both
    /// positions must be resolved.
    pub fn displacement(&self, to: &Ball) -> (r: Displacement)
        requires
            self.wf(),
            to.wf(),
            self.position.resolved(),
            to.position.resolved(),
            fits_i64(rat_sub(to.position.x@, self.position.x@)),
            fits_i64(rat_sub(to.position.y@, self.position.y@)),
        ensures
            r.dx.wf(),
            r.dy.wf(),
            rat_eqv(r.dx@, rat_sub(to.position.x@, self.position.x@)),
            rat_eqv(r.dy@, rat_sub(to.position.y@, self.position.y@)),
    {
        self.position.displacement(&to.position)
    }

    /// The straight-line distance between two ball centers, in
    /// diamonds, to four decimal places: the greatest multiple of one
    /// ten-thousandth whose square is at most the rounded displacement
    /// components' sum of squares.
    pub fn distance(&self, to: &Ball) -> (r: Diamond)
        requires
            self.wf(),
            to.wf(),
            self.position.resolved(),
            to.position.resolved(),
            fits_i64(rat_sub(to.position.x@, self.position.x@)),
            fits_i64(rat_sub(to.position.y@, self.position.y@)),
            within_million(rat_sub(to.position.x@, self.position.x@)),
            within_million(rat_sub(to.position.y@, self.position.y@)),
        ensures
            r.wf(),
            r@.d == 10000,
            r@.n >= 0,
            ({
                let qx = round4_abs(rat_sub(to.position.x@, self.position.x@));
                let qy = round4_abs(rat_sub(to.position.y@, self.position.y@));
                r@.n * r@.n <= qx * qx + qy * qy < (r@.n + 1) * (r@.n + 1)
            }),
    {
        let ghost sx = rat_sub(to.position.x@, self.position.x@);
        let ghost sy = rat_sub(to.position.y@, self.position.y@);
        let d = self.displacement(to);
        proof {
            lemma_pos_mul(to.position.x@.d, self.position.x@.d);
            lemma_pos_mul(to.position.y@.d, self.position.y@.d);
            lemma_le_eqv(sx, Rat { n: 1000000, d: 1 }, d.dx@, Rat { n: 1000000, d: 1 });
            lemma_le_eqv(Rat { n: -1000000, d: 1 }, sx, Rat { n: -1000000, d: 1 }, d.dx@);
            lemma_le_eqv(sy, Rat { n: 1000000, d: 1 }, d.dy@, Rat { n: 1000000, d: 1 });
            lemma_le_eqv(Rat { n: -1000000, d: 1 }, sy, Rat { n: -1000000, d: 1 }, d.dy@);
            crate::position::lemma_round4_eqv(d.dx@, sx);
            crate::position::lemma_round4_eqv(d.dy@, sy);
        }
        d.absolute_distance()
    }
}

/// The kind of game being diagrammed.
#[derive(Clone, Copy, Debug, PartialEq, Eq, Structural)]
pub enum GameType {
    NineBall,
    EightBall,
    TenBall,
    OnePocket,
    Banks,
}

impl Default for GameType {
    fn default() -> (r: GameType)
        ensures
            r == GameType::NineBall,
    {
        GameType::NineBall
    }
}

/// A modifier applying to the cue ball, such as ball in hand.
#[derive(Clone, Copy, Debug, PartialEq, Eq, Structural)]
pub enum CueballModifier {
    AsItLays,
    BreakPlacement,
    BallInHand,
    KitchenPlacement,
}

impl Default for CueballModifier {
    fn default() -> (r: CueballModifier)
        ensures
            r == CueballModifier::AsItLays,
    {
        CueballModifier::AsItLays
    }
}

/// One of the four rails of the table.
#[derive(Clone, Copy, Debug, PartialEq, Eq, Structural)]
pub enum Rail {
    Top,
    Bottom,
    Left,
    Right,
}

impl Rail {
    /// The diamond at which this rail's coordinate line begins.
    pub fn rail_origin(&self) -> (r: Position)
        ensures
            r.wf(),
            r.resolved(),
            *self == Rail::Top ==> r.x@ == rat_int(0) && r.y@ == rat_int(8),
            *self == Rail::Right ==> r.x@ == rat_int(4) && r.y@ == rat_int(0),
            *self == Rail::Bottom ==> r.x@ == rat_int(0) && r.y@ == rat_int(0),
            *self == Rail::Left ==> r.x@ == rat_int(0) && r.y@ == rat_int(0),
    {
        match *self {
            Rail::Top => Position::at_diamonds(0, 8),
            Rail::Right => Position::at_diamonds(4, 0),
            Rail::Bottom => Position::at_diamonds(0, 0),
            Rail::Left => Position::at_diamonds(0, 0),
        }
    }

    /// Whether this is the left or right rail.
    pub fn is_vertical(&self) -> (r: bool)
        ensures
            r == matches!(*self, Rail::Left | Rail::Right),
    {
        matches!(*self, Rail::Left | Rail::Right)
    }

    /// Whether this is the top or bottom rail.
    pub fn is_horizontal(&self) -> (r: bool)
        ensures
            r == matches!(*self, Rail::Top | Rail::Bottom),
    {
        matches!(*self, Rail::Top | Rail::Bottom)
    }
}

/// An RGBA color for overlay annotations.
#[derive(Clone, Copy, Debug, PartialEq, Eq, Structural)]
pub struct Color {
    pub red: u8,
    pub green: u8,
    pub blue: u8,
    pub alpha: u8,
}

/// A dotted overlay line between two points, for the renderer.
#[derive(Clone, Copy, Debug)]
pub struct OverlayLine {
    pub from: Position,
    pub to: Position,
    pub color: Color,
}

/// The full state of a diagrammed game.
#[derive(Clone, Debug)]
pub struct GameState {
    pub table_spec: TableSpec,
    pub ball_positions: Vec<Ball>,
    pub ty: GameType,
    pub cueball_modifier: CueballModifier,
    pub lines_to_draw: Vec<OverlayLine>,
}

impl Default for GameState {
    /// An empty nine-ball game on the 9 foot Brunswick preset.
    fn default() -> (r: GameState)
        ensures
            r.wf(),
            r.table_spec.derived_ok(),
            r.table_spec.diamond_length@ == (Rat { n: 25, d: 2 }),
            r.ball_positions@.len() == 0,
            r.ty == GameType::NineBall,
            r.cueball_modifier == CueballModifier::AsItLays,
            r.lines_to_draw@.len() == 0,
    {
        GameState {
            table_spec: TableSpec::brunswick_gc4_9ft(),
            ball_positions: Vec::new(),
            ty: GameType::NineBall,
            cueball_modifier: CueballModifier::AsItLays,
            lines_to_draw: Vec::new(),
        }
    }
}

/// Whether a ball's radius can be converted and applied against rails
/// on a table with scale factor `len`.
pub open spec fn can_freeze(ball: Ball, len: Rat) -> bool {
    let q = rat_div(ball.spec.radius@, len);
    &&& fits_i64_signed(q)
    &&& fits_after(Rat { n: 8, d: 1 }, abs(q.n) as int, abs(q.d) as int)
    &&& fits_after(Rat { n: 4, d: 1 }, abs(q.n) as int, abs(q.d) as int)
    &&& fits_after(Rat { n: 0, d: 1 }, abs(q.n) as int, abs(q.d) as int)
}

impl GameState {
    /// A valid game state: a valid table and valid balls.
    pub open spec fn wf(self) -> bool {
        &&& self.table_spec.wf()
        &&& forall|i: int|
            0 <= i < self.ball_positions@.len() ==> (#[trigger] self.ball_positions@[i]).wf()
    }

    /// The first ball of the given kind, if one is on the table.
    /// Returns nothing exactly when no ball of that kind is present.
    pub fn select_ball(&self, ball_type: BallType) -> (r: Option<&Ball>)
        ensures
            match r {
                Some(b) => b.ty == ball_type && exists|i: int|
                    0 <= i < self.ball_positions@.len() && self.ball_positions@[i] == *b,
                None => forall|i: int|
                    0 <= i < self.ball_positions@.len() ==> (#[trigger] self.ball_positions@[i]).ty
                        != ball_type,
            },
    {
        let mut idx: usize = 0;
        while idx < self.ball_positions.len()
            invariant
                idx <= self.ball_positions@.len(),
                forall|j: int|
                    0 <= j < idx ==> (#[trigger] self.ball_positions@[j]).ty != ball_type,
            decreases self.ball_positions@.len() - idx,
        {
            if self.ball_positions[idx].ty == ball_type {
                return Some(&self.ball_positions[idx]);
            }
            idx += 1;
        }
        None
    }

    /// Resolves every ball's pending physical shifts against this
    /// game's table, in place: afterwards every position is resolved,
    /// with each coordinate moved by its shift converted to diamonds.
    /// Balls with nothing pending keep their exact position, so a
    /// second pass changes nothing.
    pub fn resolve_positions(&mut self)
        requires
            old(self).wf(),
            forall|i: int|
                0 <= i < old(self).ball_positions@.len() ==> can_resolve(
                    (#[trigger] old(self).ball_positions@[i]).position,
                    old(self).table_spec.diamond_length@,
                ),
        ensures
            final(self).wf(),
            final(self).table_spec == old(self).table_spec,
            final(self).ty == old(self).ty,
            final(self).cueball_modifier == old(self).cueball_modifier,
            final(self).lines_to_draw == old(self).lines_to_draw,
            final(self).ball_positions@.len() == old(self).ball_positions@.len(),
            forall|i: int|
                0 <= i < old(self).ball_positions@.len() ==> {
                    let before = #[trigger] old(self).ball_positions@[i];
                    let after = final(self).ball_positions@[i];
                    &&& after.ty == before.ty
                    &&& after.spec == before.spec
                    &&& after.position.resolved()
                    &&& rat_eqv(
                        after.position.x@,
                        rat_add(
                            before.position.x@,
                            resolved_delta(
                                before.position.unresolved_x_shift,
                                old(self).table_spec.diamond_length@,
                            ),
                        ),
                    )
                    &&& rat_eqv(
                        after.position.y@,
                        rat_add(
                            before.position.y@,
                            resolved_delta(
                                before.position.unresolved_y_shift,
                                old(self).table_spec.diamond_length@,
                            ),
                        ),
                    )
                    &&& (before.position.resolved() ==> after == before)
                },
    {
        let ts = self.table_spec;
        let n = self.ball_positions.len();
        let mut idx: usize = 0;
        while idx < n
            invariant
                n == self.ball_positions@.len(),
                n == old(self).ball_positions@.len(),
                idx <= n,
                old(self).wf(),
                forall|i: int|
                    0 <= i < n ==> can_resolve(
                        (#[trigger] old(self).ball_positions@[i]).position,
                        old(self).table_spec.diamond_length@,
                    ),
                ts == old(self).table_spec,
                self.table_spec == old(self).table_spec,
                self.ty == old(self).ty,
                self.cueball_modifier == old(self).cueball_modifier,
                self.lines_to_draw == old(self).lines_to_draw,
                forall|i: int|
                    idx <= i < n ==> #[trigger] self.ball_positions@[i] == old(self).ball_positions@[i],
                forall|i: int|
                    0 <= i < idx ==> {
                        let before = #[trigger] old(self).ball_positions@[i];
                        let after = self.ball_positions@[i];
                        &&& after.ty == before.ty
                        &&& after.spec == before.spec
                        &&& after.position.wf()
                        &&& after.position.resolved()
                        &&& rat_eqv(
                            after.position.x@,
                            rat_add(
                                before.position.x@,
                                resolved_delta(
                                    before.position.unresolved_x_shift,
                                    ts.diamond_length@,
                                ),
                            ),
                        )
                        &&& rat_eqv(
                            after.position.y@,
                            rat_add(
                                before.position.y@,
                                resolved_delta(
                                    before.position.unresolved_y_shift,
                                    ts.diamond_length@,
                                ),
                            ),
                        )
                        &&& (before.position.resolved() ==> after == before)
                    },
            decreases n - idx,
        {
            let mut ball = self.ball_positions[idx];
            ball.position.resolve_shifts(&ts);
            self.ball_positions.set(idx, ball);
            idx += 1;
        }
        proof {
            assert forall|i: int|
                0 <= i < self.ball_positions@.len() implies (
            #[trigger] self.ball_positions@[i]).wf() by {
                assert(old(self).ball_positions@[i].wf());
            }
        }
    }

    /// Places `ball` frozen to the given rail: the coordinate along the
    /// rail is `diamond`, and the coordinate against the rail is offset
    /// from the rail line by the ball's radius in diamonds, so the
    /// ball's edge, not its center, touches the cushion. The ball is
    /// appended to the game's balls; no collision check is made.
    pub fn freeze_to_rail(&mut self, rail: Rail, diamond: Diamond, ball: Ball)
        requires
            old(self).wf(),
            diamond.wf(),
            ball.wf(),
            can_freeze(ball, old(self).table_spec.diamond_length@),
        ensures
            final(self).wf(),
            final(self).table_spec == old(self).table_spec,
            final(self).ty == old(self).ty,
            final(self).cueball_modifier == old(self).cueball_modifier,
            final(self).lines_to_draw == old(self).lines_to_draw,
            final(self).ball_positions@.len() == old(self).ball_positions@.len() + 1,
            forall|i: int|
                0 <= i < old(self).ball_positions@.len() ==> #[trigger] final(self).ball_positions@[i] == old(self).ball_positions@[i],
            ({
                let placed = final(self).ball_positions@.last();
                let q = rat_div(ball.spec.radius@, old(self).table_spec.diamond_length@);
                &&& placed.ty == ball.ty
                &&& placed.spec == ball.spec
                &&& placed.position.unresolved_x_shift == ball.position.unresolved_x_shift
                &&& placed.position.unresolved_y_shift == ball.position.unresolved_y_shift
                &&& (rail == Rail::Top ==> placed.position.x == diamond && rat_eqv(
                    placed.position.y@,
                    rat_sub(Rat { n: 8, d: 1 }, q),
                ))
                &&& (rail == Rail::Right ==> placed.position.y == diamond && rat_eqv(
                    placed.position.x@,
                    rat_sub(Rat { n: 4, d: 1 }, q),
                ))
                &&& (rail == Rail::Bottom ==> placed.position.x == diamond && rat_eqv(
                    placed.position.y@,
                    rat_add(Rat { n: 0, d: 1 }, q),
                ))
                &&& (rail == Rail::Left ==> placed.position.y == diamond && rat_eqv(
                    placed.position.x@,
                    rat_add(Rat { n: 0, d: 1 }, q),
                ))
            }),
    {
        let ghost q = rat_div(ball.spec.radius@, old(self).table_spec.diamond_length@);
        let radius_diamonds = self.table_spec.inches_to_diamond(ball.spec.radius);
        let mut placed = ball;
        proof {
            lemma_fits_add(Rat { n: 8, d: 1 }, radius_diamonds@, abs(q.n) as int, abs(q.d) as int);
            lemma_fits_add(Rat { n: 4, d: 1 }, radius_diamonds@, abs(q.n) as int, abs(q.d) as int);
            lemma_fits_add(Rat { n: 0, d: 1 }, radius_diamonds@, abs(q.n) as int, abs(q.d) as int);
        }
        match rail {
            Rail::Top => {
                let edge = Diamond::eight().sub(radius_diamonds);
                proof {
                    lemma_sub_to(Rat { n: 8, d: 1 }, radius_diamonds@, q, edge@);
                }
                placed.position.y = edge;
                placed.position.x = diamond;
            },
            Rail::Right => {
                let edge = Diamond::four().sub(radius_diamonds);
                proof {
                    lemma_sub_to(Rat { n: 4, d: 1 }, radius_diamonds@, q, edge@);
                }
                placed.position.x = edge;
                placed.position.y = diamond;
            },
            Rail::Bottom => {
                let edge = Diamond::zero().add(radius_diamonds);
                proof {
                    crate::rat::lemma_add_to(Rat { n: 0, d: 1 }, radius_diamonds@, q, edge@);
                }
                placed.position.y = edge;
                placed.position.x = diamond;
            },
            Rail::Left => {
                let edge = Diamond::zero().add(radius_diamonds);
                proof {
                    crate::rat::lemma_add_to(Rat { n: 0, d: 1 }, radius_diamonds@, q, edge@);
                }
                placed.position.x = edge;
                placed.position.y = diamond;
            },
        }
        self.ball_positions.push(placed);
    }

    /// Records a dotted overlay line between two points for the
    /// renderer to draw.
    pub fn add_dotted_line(&mut self, a: &Position, b: &Position, color: Color)
        ensures
            final(self).table_spec == old(self).table_spec,
            final(self).ball_positions == old(self).ball_positions,
            final(self).ty == old(self).ty,
            final(self).cueball_modifier == old(self).cueball_modifier,
            final(self).lines_to_draw@.len() == old(self).lines_to_draw@.len() + 1,
            forall|i: int|
                0 <= i < old(self).lines_to_draw@.len() ==> #[trigger] final(self).lines_to_draw@[i] == old(self).lines_to_draw@[i],
            final(self).lines_to_draw@.last().from == *a,
            final(self).lines_to_draw@.last().to == *b,
            final(self).lines_to_draw@.last().color == color,
    {
        self.lines_to_draw.push(OverlayLine { from: *a, to: *b, color });
    }
}

/// Which row of the rack (counting down from the lead ball) the ball
/// at a given index of the canonical nine-ball rack occupies.
pub open spec fn rack_row(i: int) -> int {
    if i == 0 {
        0
    } else if i <= 2 {
        1
    } else if i <= 5 {
        2
    } else if i <= 7 {
        3
    } else {
        4
    }
}

/// How many ball radii to the right of the rack spot the ball at a
/// given index sits: in a frozen triangular packing, same-row centers
/// are two radii apart, so a row of `w` balls spans offsets
/// `-(w - 1)` to `w - 1` in steps of two.
pub open spec fn rack_side(i: int) -> int {
    if i == 1 || i == 6 {
        -1
    } else if i == 2 || i == 7 {
        1
    } else if i == 3 {
        -2
    } else if i == 5 {
        2
    } else {
        0
    }
}

/// The canonical rack position at a given index: the rack spot
/// `(2, 2)`, with pending physical shifts of `rack_side` ball radii
/// sideways and `rack_row` row heights down. A row height is the ball
/// radius times the square root of three (to seven decimal places),
/// the center spacing of touching rows in a triangular packing.
pub open spec fn rack_position(i: int) -> Position {
    if i == 0 {
        Position {
            x: Diamond { magnitude: Ratio { n: 2, d: 1 } },
            y: Diamond { magnitude: Ratio { n: 2, d: 1 } },
            unresolved_x_shift: None,
            unresolved_y_shift: None,
        }
    } else {
        Position {
            x: Diamond { magnitude: Ratio { n: 2, d: 1 } },
            y: Diamond { magnitude: Ratio { n: 2, d: 1 } },
            unresolved_x_shift: Some(
                Inches { magnitude: Ratio { n: (9 * rack_side(i)) as i64, d: 8 } },
            ),
            unresolved_y_shift: Some(
                Inches { magnitude: Ratio { n: (-155884572 * rack_row(i)) as i64, d: 80000000 } },
            ),
        }
    }
}

/// The ball that goes at a given index of the canonical nine-ball
/// rack: the one ball leads, the nine sits at the center of the middle
/// row, and the rest fill in order.
pub open spec fn rack_ball_type_spec(i: int) -> BallType {
    if i == 0 {
        BallType::One
    } else if i == 1 {
        BallType::Two
    } else if i == 2 {
        BallType::Three
    } else if i == 3 {
        BallType::Four
    } else if i == 4 {
        BallType::Nine
    } else if i == 5 {
        BallType::Five
    } else if i == 6 {
        BallType::Six
    } else if i == 7 {
        BallType::Seven
    } else {
        BallType::Eight
    }
}

/// One non-lead rack position, built from its row and sideways offset.
fn rack_entry(i: usize) -> (p: Position)
    requires
        1 <= i <= 8,
    ensures
        p == rack_position(i as int),
        p.wf(),
{
    let side: i64 = if i == 1 || i == 6 {
        -1
    } else if i == 2 || i == 7 {
        1
    } else if i == 3 {
        -2
    } else if i == 5 {
        2
    } else {
        0
    };
    let row: i64 = if i <= 2 {
        1
    } else if i <= 5 {
        2
    } else if i <= 7 {
        3
    } else {
        4
    };
    Position {
        x: Diamond { magnitude: Ratio { n: 2, d: 1 } },
        y: Diamond { magnitude: Ratio { n: 2, d: 1 } },
        unresolved_x_shift: Some(Inches { magnitude: Ratio { n: 9 * side, d: 8 } }),
        unresolved_y_shift: Some(
            Inches { magnitude: Ratio { n: -155884572 * row, d: 80000000 } },
        ),
    }
}

/// The nine positions of the canonical nine-ball rack, anchored at the
/// rack spot. Every position past the lead ball carries its offsets as
/// pending physical shifts, so the layout is independent of any
/// particular table; `GameState::resolve_positions` converts them to
/// diamond coordinates in bulk.
pub fn racked_ball_positions() -> (r: Vec<Position>)
    ensures
        r@.len() == 9,
        forall|i: int| 0 <= i < 9 ==> (#[trigger] r@[i]) == rack_position(i),
        forall|i: int| 0 <= i < 9 ==> (#[trigger] r@[i]).wf(),
{
    let mut r: Vec<Position> = Vec::new();
    r.push(
        Position {
            x: Diamond { magnitude: Ratio { n: 2, d: 1 } },
            y: Diamond { magnitude: Ratio { n: 2, d: 1 } },
            unresolved_x_shift: None,
            unresolved_y_shift: None,
        },
    );
    r.push(rack_entry(1));
    r.push(rack_entry(2));
    r.push(rack_entry(3));
    r.push(rack_entry(4));
    r.push(rack_entry(5));
    r.push(rack_entry(6));
    r.push(rack_entry(7));
    r.push(rack_entry(8));
    r
}

/// The canonical nine-ball rack: the nine positions of
/// `racked_ball_positions` filled with standard balls, the one ball in
/// the lead and the nine at the center.
pub fn rack_9_ball() -> (r: Vec<Ball>)
    ensures
        r@.len() == 9,
        forall|i: int| 0 <= i < 9 ==> (#[trigger] r@[i]).ty == rack_ball_type_spec(i),
        forall|i: int| 0 <= i < 9 ==> (#[trigger] r@[i]).position == rack_position(i),
        forall|i: int| 0 <= i < 9 ==> (#[trigger] r@[i]).spec.radius@ == (Rat { n: 9, d: 8 }),
        forall|i: int| 0 <= i < 9 ==> (#[trigger] r@[i]).wf(),
{
    let positions = racked_ball_positions();
    let mut r: Vec<Ball> = Vec::new();
    let mut i: usize = 0;
    while i < 9
        invariant
            positions@.len() == 9,
            forall|j: int| 0 <= j < 9 ==> (#[trigger] positions@[j]) == rack_position(j),
            forall|j: int| 0 <= j < 9 ==> (#[trigger] positions@[j]).wf(),
            i <= 9,
            r@.len() == i,
            forall|j: int| 0 <= j < i ==> (#[trigger] r@[j]).ty == rack_ball_type_spec(j),
            forall|j: int| 0 <= j < i ==> (#[trigger] r@[j]).position == rack_position(j),
            forall|j: int| 0 <= j < i ==> (#[trigger] r@[j]).spec.radius@ == (Rat { n: 9, d: 8 }),
            forall|j: int| 0 <= j < i ==> (#[trigger] r@[j]).wf(),
        decreases 9 - i,
    {
        let ty = if i == 0 {
            BallType::One
        } else if i == 1 {
            BallType::Two
        } else if i == 2 {
            BallType::Three
        } else if i == 3 {
            BallType::Four
        } else if i == 4 {
            BallType::Nine
        } else if i == 5 {
            BallType::Five
        } else if i == 6 {
            BallType::Six
        } else if i == 7 {
            BallType::Seven
        } else {
            BallType::Eight
        };
        r.push(Ball { ty, position: positions[i], spec: BallSpec::default() });
        i += 1;
    }
    r
}

/// A computed difference that matches `rat_sub(a, b)` also matches the
/// difference with `b` replaced by any pair denoting the same number.
proof fn lemma_sub_to(a: Rat, b: Rat, b2: Rat, r: Rat)
    requires
        a.d > 0,
        b.d > 0,
        rat_eqv(b, b2),
        rat_eqv(r, rat_sub(a, b)),
    ensures
        rat_eqv(r, rat_sub(a, b2)),
{
    crate::rat::lemma_sub_eqv(a, b, a, b2);
    lemma_pos_mul(a.d, b.d);
    lemma_eqv_trans(r, rat_sub(a, b), rat_sub(a, b2));
}

} // verus!
