//! Points and displacements on the table.
//!
//! A `Position` is a point in diamond coordinates: `(0, 0)` is the
//! bottom-left corner diamond, `(4, 8)` the top-right, the rack spot
//! `(2, 2)` and the table center `(2, 4)`. Besides its coordinates a
//! position can carry *pending shifts*: physical offsets in inches that
//! were requested before any table scale was known. A position is
//! *resolved* when both pending shifts are empty; coordinate-reading
//! operations require a resolved position, so stale coordinates can
//! never be read while a shift is still pending.

use crate::angle::{cos_scaled, sin_scaled, Angle};
use crate::rat::{lemma_add_to, rat_add, rat_div, rat_eqv, rat_int, rat_le, rat_lt, rat_mul,
    rat_sub, Rat};
use crate::ratio::{fits_after, fits_i64, fits_i64_signed, lemma_fits_add, Ratio};
use crate::table::TableSpec;
use crate::units::{Diamond, Inches};
use vstd::arithmetic::div_mod::{lemma_div_is_ordered, lemma_div_pos_is_pos,
    lemma_fundamental_div_mod, lemma_fundamental_div_mod_converse, lemma_multiply_divide_lt};
use vstd::math::abs;
use vstd::prelude::*;

verus! {

/// A point on the table, with any still-pending physical offsets.
#[derive(Clone, Copy, Debug)]
pub struct Position {
    /// Sideways coordinate, 0 at the left rail to 4 at the right.
    pub x: Diamond,
    /// Lengthwise coordinate, 0 at the bottom rail to 8 at the top.
    pub y: Diamond,
    /// A physical sideways offset not yet converted to diamonds.
    pub unresolved_x_shift: Option<Inches>,
    /// A physical lengthwise offset not yet converted to diamonds.
    pub unresolved_y_shift: Option<Inches>,
}

/// The vector difference between two positions, in diamonds.
#[derive(Clone, Copy, Debug)]
pub struct Displacement {
    /// The sideways component.
    pub dx: Diamond,
    /// The lengthwise component.
    pub dy: Diamond,
}

/// The length a pending shift stands for: zero when none is pending.
pub open spec fn shift_val(s: Option<Inches>) -> Rat {
    match s {
        Option::None => rat_int(0),
        Option::Some(i) => i@,
    }
}

/// A pending shift that is either absent or a valid length.
pub open spec fn shift_wf(s: Option<Inches>) -> bool {
    match s {
        Option::None => true,
        Option::Some(i) => i.wf(),
    }
}

impl Position {
    /// A valid stored position.
    pub open spec fn wf(self) -> bool {
        &&& self.x.wf()
        &&& self.y.wf()
        &&& shift_wf(self.unresolved_x_shift)
        &&& shift_wf(self.unresolved_y_shift)
    }

    /// No physical offsets are pending: the coordinates are current.
    pub open spec fn resolved(self) -> bool {
        &&& self.unresolved_x_shift is None
        &&& self.unresolved_y_shift is None
    }

    /// The position at the bottom-left corner diamond, resolved.
    pub fn zeroed() -> (r: Position)
        ensures
            r.wf(),
            r.resolved(),
            r.x@ == rat_int(0),
            r.y@ == rat_int(0),
    {
        Position {
            x: Diamond::zero(),
            y: Diamond::zero(),
            unresolved_x_shift: None,
            unresolved_y_shift: None,
        }
    }

    /// A resolved position at whole-diamond coordinates.
    pub fn at_diamonds(x: i64, y: i64) -> (r: Position)
        requires
            -(i64::MAX as int) <= x as int,
            -(i64::MAX as int) <= y as int,
        ensures
            r.wf(),
            r.resolved(),
            r.x@ == rat_int(x as int),
            r.y@ == rat_int(y as int),
    {
        Position {
            x: Diamond::from_int(x),
            y: Diamond::from_int(y),
            unresolved_x_shift: None,
            unresolved_y_shift: None,
        }
    }

    /// The displacement from this position to another. Both positions
    /// must be resolved: a pending shift would make the stored
    /// coordinates stale.
    pub fn displacement(&self, to: &Position) -> (r: Displacement)
        requires
            self.wf(),
            to.wf(),
            self.resolved(),
            to.resolved(),
            fits_i64(rat_sub(to.x@, self.x@)),
            fits_i64(rat_sub(to.y@, self.y@)),
        ensures
            r.dx.wf(),
            r.dy.wf(),
            rat_eqv(r.dx@, rat_sub(to.x@, self.x@)),
            rat_eqv(r.dy@, rat_sub(to.y@, self.y@)),
    {
        Displacement { dx: to.x.sub(self.x), dy: to.y.sub(self.y) }
    }

    /// Fills whichever coordinate is still zero with the given value;
    /// exactly one of them must be zero for the call to make sense.
    pub fn merge_unset_component(self, diamond: Diamond) -> (r: Position)
        requires
            self.wf(),
            diamond.wf(),
            self.x@.n == 0 || self.y@.n == 0,
        ensures
            r.wf(),
            self.x@.n == 0 ==> r.x == diamond && r.y == self.y,
            self.x@.n != 0 ==> r.x == self.x && r.y == diamond,
            r.unresolved_x_shift == self.unresolved_x_shift,
            r.unresolved_y_shift == self.unresolved_y_shift,
    {
        if self.x.magnitude.is_zero() {
            Position { x: diamond, ..self }
        } else {
            Position { y: diamond, ..self }
        }
    }

    /// Moves the position sideways by an exact diamond distance.
    pub fn shift_horizontally(&mut self, distance: Diamond)
        requires
            old(self).wf(),
            distance.wf(),
            fits_i64(rat_add(old(self).x@, distance@)),
        ensures
            final(self).wf(),
            rat_eqv(final(self).x@, rat_add(old(self).x@, distance@)),
            final(self).y == old(self).y,
            final(self).unresolved_x_shift == old(self).unresolved_x_shift,
            final(self).unresolved_y_shift == old(self).unresolved_y_shift,
    {
        self.x = self.x.add(distance);
    }

    /// Moves the position lengthwise by an exact diamond distance.
    pub fn shift_vertically(&mut self, distance: Diamond)
        requires
            old(self).wf(),
            distance.wf(),
            fits_i64(rat_add(old(self).y@, distance@)),
        ensures
            final(self).wf(),
            rat_eqv(final(self).y@, rat_add(old(self).y@, distance@)),
            final(self).x == old(self).x,
            final(self).unresolved_x_shift == old(self).unresolved_x_shift,
            final(self).unresolved_y_shift == old(self).unresolved_y_shift,
    {
        self.y = self.y.add(distance);
    }

    /// Queues a physical sideways offset to be applied once a table
    /// scale is available; offsets accumulate exactly.
    pub fn shift_horizontally_inches(&mut self, distance: Inches)
        requires
            old(self).wf(),
            distance.wf(),
            fits_i64(rat_add(shift_val(old(self).unresolved_x_shift), distance@)),
        ensures
            final(self).wf(),
            final(self).unresolved_x_shift is Some,
            rat_eqv(
                shift_val(final(self).unresolved_x_shift),
                rat_add(shift_val(old(self).unresolved_x_shift), distance@),
            ),
            final(self).x == old(self).x,
            final(self).y == old(self).y,
            final(self).unresolved_y_shift == old(self).unresolved_y_shift,
    {
        let base = match self.unresolved_x_shift {
            Some(i) => i,
            None => Inches::from_int(0),
        };
        self.unresolved_x_shift = Some(base.add(distance));
    }

    /// Queues a physical lengthwise offset to be applied once a table
    /// scale is available; offsets accumulate exactly.
    pub fn shift_vertically_inches(&mut self, distance: Inches)
        requires
            old(self).wf(),
            distance.wf(),
            fits_i64(rat_add(shift_val(old(self).unresolved_y_shift), distance@)),
        ensures
            final(self).wf(),
            final(self).unresolved_y_shift is Some,
            rat_eqv(
                shift_val(final(self).unresolved_y_shift),
                rat_add(shift_val(old(self).unresolved_y_shift), distance@),
            ),
            final(self).x == old(self).x,
            final(self).y == old(self).y,
            final(self).unresolved_x_shift == old(self).unresolved_x_shift,
    {
        let base = match self.unresolved_y_shift {
            Some(i) => i,
            None => Inches::from_int(0),
        };
        self.unresolved_y_shift = Some(base.add(distance));
    }

    /// Which side of the table center `(2, 4)` this position lies on,
    /// per axis: true for the positive (right / far) side, by strict
    /// comparison. A coordinate exactly on the center line counts as
    /// the negative side.
    pub fn direction_from_center(&self) -> (r: (bool, bool))
        requires
            self.wf(),
            self.resolved(),
        ensures
            r.0 == rat_lt(Rat { n: 2, d: 1 }, self.x@),
            r.1 == rat_lt(Rat { n: 4, d: 1 }, self.y@),
    {
        let cx = Ratio::from_int(2);
        let cy = Ratio::from_int(4);
        (cx.lt(self.x.magnitude), cy.lt(self.y.magnitude))
    }
}

/// The exact sideways component of a polar step: `dist` times the sine
/// of an angle of `m` thousandths of a degree.
pub open spec fn polar_dx(dist: Rat, m: int) -> Rat {
    rat_mul(dist, Rat { n: sin_scaled(m), d: 1000000 })
}

/// The exact lengthwise component of a polar step: `dist` times the
/// cosine of an angle of `m` thousandths of a degree.
pub open spec fn polar_dy(dist: Rat, m: int) -> Rat {
    rat_mul(dist, Rat { n: cos_scaled(m), d: 1000000 })
}

/// Whether a polar step of `dist` at angle `m` can be applied to this
/// position's coordinates within the stored range.
pub open spec fn can_translate(p: Position, dist: Rat, m: int) -> bool {
    &&& fits_i64(polar_dx(dist, m))
    &&& fits_i64(polar_dy(dist, m))
    &&& fits_after(p.x@, abs(polar_dx(dist, m).n) as int, polar_dx(dist, m).d)
    &&& fits_after(p.y@, abs(polar_dy(dist, m).n) as int, polar_dy(dist, m).d)
}

/// Whether a polar step of `dist` inches at angle `m` can be queued on
/// this position's pending shifts within the stored range.
pub open spec fn can_translate_inches(p: Position, dist: Rat, m: int) -> bool {
    &&& fits_i64(polar_dx(dist, m))
    &&& fits_i64(polar_dy(dist, m))
    &&& fits_after(shift_val(p.unresolved_x_shift), abs(polar_dx(dist, m).n) as int, polar_dx(dist, m).d)
    &&& fits_after(shift_val(p.unresolved_y_shift), abs(polar_dy(dist, m).n) as int, polar_dy(dist, m).d)
}

/// The diamond delta a pending shift resolves to on a table with scale
/// factor `len`.
pub open spec fn resolved_delta(s: Option<Inches>, len: Rat) -> Rat {
    rat_div(shift_val(s), len)
}

/// Whether this position's pending shifts can be resolved against the
/// scale factor `len` within the stored range.
pub open spec fn can_resolve(p: Position, len: Rat) -> bool {
    let qx = resolved_delta(p.unresolved_x_shift, len);
    let qy = resolved_delta(p.unresolved_y_shift, len);
    &&& fits_i64_signed(qx)
    &&& fits_i64_signed(qy)
    &&& fits_after(p.x@, abs(qx.n) as int, abs(qx.d) as int)
    &&& fits_after(p.y@, abs(qy.n) as int, abs(qy.d) as int)
}

impl Position {
    /// Moves the position by `distance` in the direction of `angle`:
    /// the step is `distance * sin` sideways and `distance * cos`
    /// lengthwise, per the clockwise-from-north convention. The
    /// coordinates change immediately; pending shifts are untouched, so
    /// the result is resolved exactly when `self` was.
    pub fn translate(self, distance: Diamond, angle: Angle) -> (r: Position)
        requires
            self.wf(),
            distance.wf(),
            angle.wf(),
            can_translate(self, distance@, angle.millidegrees as int),
        ensures
            r.wf(),
            rat_eqv(r.x@, rat_add(self.x@, polar_dx(distance@, angle.millidegrees as int))),
            rat_eqv(r.y@, rat_add(self.y@, polar_dy(distance@, angle.millidegrees as int))),
            r.unresolved_x_shift == self.unresolved_x_shift,
            r.unresolved_y_shift == self.unresolved_y_shift,
    {
        let ghost sx = polar_dx(distance@, angle.millidegrees as int);
        let ghost sy = polar_dy(distance@, angle.millidegrees as int);
        let dx = distance.scale(angle.sin());
        let dy = distance.scale(angle.cos());
        proof {
            lemma_fits_add(self.x@, dx@, abs(sx.n) as int, sx.d);
            lemma_fits_add(self.y@, dy@, abs(sy.n) as int, sy.d);
        }
        let nx = self.x.add(dx);
        let ny = self.y.add(dy);
        proof {
            lemma_add_to(self.x@, dx@, sx, nx@);
            lemma_add_to(self.y@, dy@, sy, ny@);
        }
        Position { x: nx, y: ny, ..self }
    }

    /// Queues a physical step of `distance` inches in the direction of
    /// `angle` on the pending shifts, to be converted to diamonds later
    /// against a table; the coordinates are untouched.
    pub fn translate_inches(self, distance: Inches, angle: Angle) -> (r: Position)
        requires
            self.wf(),
            distance.wf(),
            angle.wf(),
            can_translate_inches(self, distance@, angle.millidegrees as int),
        ensures
            r.wf(),
            r.x == self.x,
            r.y == self.y,
            rat_eqv(
                shift_val(r.unresolved_x_shift),
                rat_add(
                    shift_val(self.unresolved_x_shift),
                    polar_dx(distance@, angle.millidegrees as int),
                ),
            ),
            rat_eqv(
                shift_val(r.unresolved_y_shift),
                rat_add(
                    shift_val(self.unresolved_y_shift),
                    polar_dy(distance@, angle.millidegrees as int),
                ),
            ),
            r.unresolved_x_shift is Some,
            r.unresolved_y_shift is Some,
    {
        let ghost sx = polar_dx(distance@, angle.millidegrees as int);
        let ghost sy = polar_dy(distance@, angle.millidegrees as int);
        let offx = Inches { magnitude: distance.magnitude.mul(angle.sin()) };
        let offy = Inches { magnitude: distance.magnitude.mul(angle.cos()) };
        let basex = match self.unresolved_x_shift {
            Some(i) => i,
            None => Inches::from_int(0),
        };
        let basey = match self.unresolved_y_shift {
            Some(i) => i,
            None => Inches::from_int(0),
        };
        proof {
            lemma_fits_add(basex@, offx@, abs(sx.n) as int, sx.d);
            lemma_fits_add(basey@, offy@, abs(sy.n) as int, sy.d);
        }
        let newx = basex.add(offx);
        let newy = basey.add(offy);
        proof {
            lemma_add_to(basex@, offx@, sx, newx@);
            lemma_add_to(basey@, offy@, sy, newy@);
        }
        Position { unresolved_x_shift: Some(newx), unresolved_y_shift: Some(newy), ..self }
    }

    /// Queues the ghost-ball step: one ball diameter (twice the
    /// standard ball radius, nine quarter inches) in the direction of
    /// `angle`. The cue ball's center must reach the resulting point to
    /// send the target ball along `angle`.
    pub fn translate_ghost_ball(self, angle: Angle) -> (r: Position)
        requires
            self.wf(),
            angle.wf(),
            can_translate_inches(self, Rat { n: 9, d: 4 }, angle.millidegrees as int),
        ensures
            r.wf(),
            r.x == self.x,
            r.y == self.y,
            rat_eqv(
                shift_val(r.unresolved_x_shift),
                rat_add(
                    shift_val(self.unresolved_x_shift),
                    polar_dx(Rat { n: 9, d: 4 }, angle.millidegrees as int),
                ),
            ),
            rat_eqv(
                shift_val(r.unresolved_y_shift),
                rat_add(
                    shift_val(self.unresolved_y_shift),
                    polar_dy(Rat { n: 9, d: 4 }, angle.millidegrees as int),
                ),
            ),
            r.unresolved_x_shift is Some,
            r.unresolved_y_shift is Some,
    {
        self.translate_inches(Inches { magnitude: Ratio { n: 9, d: 4 } }, angle)
    }

    /// Folds both pending shifts into the coordinates, converting each
    /// to diamonds against the given table, and clears them. A position
    /// with nothing pending is returned unchanged, so resolving twice
    /// is the same as resolving once.
    pub fn resolve_shifts(&mut self, table_spec: &TableSpec)
        requires
            old(self).wf(),
            table_spec.wf(),
            can_resolve(*old(self), table_spec.diamond_length@),
        ensures
            final(self).wf(),
            final(self).resolved(),
            rat_eqv(
                final(self).x@,
                rat_add(
                    old(self).x@,
                    resolved_delta(old(self).unresolved_x_shift, table_spec.diamond_length@),
                ),
            ),
            rat_eqv(
                final(self).y@,
                rat_add(
                    old(self).y@,
                    resolved_delta(old(self).unresolved_y_shift, table_spec.diamond_length@),
                ),
            ),
            old(self).resolved() ==> *final(self) == *old(self),
    {
        let ghost len = table_spec.diamond_length@;
        let ghost qx = resolved_delta(old(self).unresolved_x_shift, len);
        let ghost qy = resolved_delta(old(self).unresolved_y_shift, len);
        match self.unresolved_x_shift {
            Some(shift) => {
                let delta = table_spec.inches_to_diamond(shift);
                proof {
                    lemma_fits_add(self.x@, delta@, abs(qx.n) as int, abs(qx.d) as int);
                }
                let nx = self.x.add(delta);
                proof {
                    lemma_add_to(self.x@, delta@, qx, nx@);
                }
                self.x = nx;
                self.unresolved_x_shift = None;
            },
            None => {
                proof {
                    lemma_resolve_nothing(self.x@, len);
                }
            },
        }
        match self.unresolved_y_shift {
            Some(shift) => {
                let delta = table_spec.inches_to_diamond(shift);
                proof {
                    lemma_fits_add(self.y@, delta@, abs(qy.n) as int, abs(qy.d) as int);
                }
                let ny = self.y.add(delta);
                proof {
                    lemma_add_to(self.y@, delta@, qy, ny@);
                }
                self.y = ny;
                self.unresolved_y_shift = None;
            },
            None => {
                proof {
                    lemma_resolve_nothing(self.y@, len);
                }
            },
        }
    }
}

/// The magnitude of `v`, rounded half-up to four decimal places and
/// scaled by ten thousand.
pub open spec fn round4_abs(v: Rat) -> int {
    (2 * (abs(v.n) as int) * 10000 + v.d) / (2 * v.d)
}

/// A value within a million units of zero, in either direction.
pub open spec fn within_million(v: Rat) -> bool {
    &&& rat_le(v, Rat { n: 1000000, d: 1 })
    &&& rat_le(Rat { n: -1000000, d: 1 }, v)
}

/// `round4_abs` depends only on the denoted number, not on the pair
/// representing it.
pub proof fn lemma_round4_eqv(a: Rat, b: Rat)
    requires
        a.d > 0,
        b.d > 0,
        rat_eqv(a, b),
    ensures
        round4_abs(a) == round4_abs(b),
{
    let an = abs(a.n) as int;
    let bn = abs(b.n) as int;
    assert(an * b.d == bn * a.d) by (nonlinear_arith)
        requires
            a.n * b.d == b.n * a.d,
            a.d > 0,
            b.d > 0,
            an == abs(a.n) as int,
            bn == abs(b.n) as int,
    ;
    let q = round4_abs(a);
    lemma_fundamental_div_mod(2 * an * 10000 + a.d, 2 * a.d);
    vstd::arithmetic::div_mod::lemma_mod_bound(2 * an * 10000 + a.d, 2 * a.d);
    let rem = (2 * an * 10000 + a.d) % (2 * a.d);
    let rem2 = 2 * bn * 10000 + b.d - q * (2 * b.d);
    assert(rem2 * a.d == rem * b.d) by (nonlinear_arith)
        requires
            2 * an * 10000 + a.d == (2 * a.d) * q + rem,
            an * b.d == bn * a.d,
            rem2 == 2 * bn * 10000 + b.d - q * (2 * b.d),
    ;
    assert(0 <= rem2 < 2 * b.d) by (nonlinear_arith)
        requires
            rem2 * a.d == rem * b.d,
            0 <= rem < 2 * a.d,
            a.d > 0,
            b.d > 0,
    ;
    lemma_fundamental_div_mod_converse(2 * bn * 10000 + b.d, 2 * b.d, q, rem2);
}

/// Evaluates `round4_abs` exactly; the input's magnitude must be at
/// most a million so that the scaled value stays squarable.
fn round4_abs_exec(v: Ratio) -> (r: u64)
    requires
        v.wf(),
        abs(v@.n) <= 1000000 * v@.d,
    ensures
        r as int == round4_abs(v@),
        r <= 10_000_000_000,
{
    let a: u128 = if v.n < 0 {
        (-v.n) as u128
    } else {
        v.n as u128
    };
    let num: u128 = 2 * a * 10000 + (v.d as u128);
    let den: u128 = 2 * (v.d as u128);
    let q = num / den;
    proof {
        lemma_div_pos_is_pos(num as int, den as int);
        lemma_multiply_divide_lt(num as int, den as int, 10_000_000_001);
    }
    q as u64
}

/// Integer square root: the greatest integer whose square is at most
/// the argument.
fn isqrt_u128(x: u128) -> (r: u128)
    requires
        x < 0x100000000000000000000,
    ensures
        (r * r) as int <= x as int,
        (x as int) < ((r + 1) * (r + 1)) as int,
        r <= 0x10000000000,
{
    let mut lo: u128 = 0;
    let mut hi: u128 = 0x10000000001;
    proof {
        assert((0x10000000001 * 0x10000000001) as int > x as int) by (nonlinear_arith)
            requires
                x < 0x100000000000000000000,
        ;
    }
    while lo + 1 < hi
        invariant
            lo < hi <= 0x10000000001,
            (lo * lo) as int <= x as int,
            (x as int) < (hi * hi) as int,
        decreases hi - lo,
    {
        let mid = (lo + hi) / 2;
        proof {
            lemma_div_is_ordered(2 * (lo as int) + 2, lo as int + hi as int, 2);
            lemma_fundamental_div_mod_converse(2 * (lo as int) + 2, 2, lo as int + 1, 0);
            lemma_div_is_ordered(lo as int + hi as int, 2 * (hi as int) - 2, 2);
            lemma_fundamental_div_mod_converse(2 * (hi as int) - 2, 2, hi as int - 1, 0);
            assert((mid * mid) as int <= 0x10000000001 * 0x10000000001) by (nonlinear_arith)
                requires
                    mid <= 0x10000000001,
            ;
        }
        let sq = mid * mid;
        if sq <= x {
            lo = mid;
        } else {
            hi = mid;
        }
    }
    lo
}

impl Displacement {
    /// The straight-line length of this displacement, in diamonds,
    /// computed on both components rounded to four decimal places: the
    /// result is the greatest multiple of one ten-thousandth whose
    /// square is at most the rounded components' sum of squares. Both
    /// components must be at most a million diamonds in magnitude.
    pub fn absolute_distance(&self) -> (r: Diamond)
        requires
            self.dx.wf(),
            self.dy.wf(),
            within_million(self.dx@),
            within_million(self.dy@),
        ensures
            r.wf(),
            r@.d == 10000,
            r@.n >= 0,
            r@.n * r@.n <= round4_abs(self.dx@) * round4_abs(self.dx@) + round4_abs(self.dy@)
                * round4_abs(self.dy@),
            round4_abs(self.dx@) * round4_abs(self.dx@) + round4_abs(self.dy@) * round4_abs(
                self.dy@,
            ) < (r@.n + 1) * (r@.n + 1),
    {
        proof {
            assert(self.dx@.n * 1 == self.dx@.n && self.dy@.n * 1 == self.dy@.n)
                by (nonlinear_arith);
        }
        let qx = round4_abs_exec(self.dx.magnitude);
        let qy = round4_abs_exec(self.dy.magnitude);
        proof {
            assert((qx as int) * (qx as int) <= 0x5AF3107A400000000000 && (qy as int) * (qy
                as int) <= 0x5AF3107A400000000000) by (nonlinear_arith)
                requires
                    qx <= 10_000_000_000,
                    qy <= 10_000_000_000,
            ;
        }
        let s2: u128 = (qx as u128) * (qx as u128) + (qy as u128) * (qy as u128);
        let s = isqrt_u128(s2);
        proof {
            assert((s * s) as int >= 0) by (nonlinear_arith);
        }
        Diamond { magnitude: Ratio { n: s as i64, d: 10000 } }
    }
}

/// Resolving an absent shift leaves a coordinate's value unchanged.
proof fn lemma_resolve_nothing(x: Rat, len: Rat)
    by (nonlinear_arith)
    requires
        x.d > 0,
    ensures
        rat_eqv(x, rat_add(x, rat_div(rat_int(0), len))),
{
}

impl Default for Position {
    /// The bottom-left corner diamond, resolved.
    fn default() -> (r: Position)
        ensures
            r.wf(),
            r.resolved(),
            r.x@ == rat_int(0),
            r.y@ == rat_int(0),
    {
        Position::zeroed()
    }
}

/// The table's center spot, diamond `(2, 4)`.
pub fn center_spot() -> (r: Position)
    ensures
        r.wf(),
        r.resolved(),
        r.x@ == rat_int(2),
        r.y@ == rat_int(4),
{
    Position::at_diamonds(2, 4)
}

/// The rack spot, diamond `(2, 2)`, where the lead ball of a rack sits.
pub fn rack_spot() -> (r: Position)
    ensures
        r.wf(),
        r.resolved(),
        r.x@ == rat_int(2),
        r.y@ == rat_int(2),
{
    Position::at_diamonds(2, 2)
}

/// The diamond at the top-right pocket, `(4, 8)`.
pub fn top_right_diamond() -> (r: Position)
    ensures
        r.wf(),
        r.resolved(),
        r.x@ == rat_int(4),
        r.y@ == rat_int(8),
{
    Position::at_diamonds(4, 8)
}

/// The diamond at the middle of the right rail, `(4, 4)`.
pub fn side_right_diamond() -> (r: Position)
    ensures
        r.wf(),
        r.resolved(),
        r.x@ == rat_int(4),
        r.y@ == rat_int(4),
{
    Position::at_diamonds(4, 4)
}

/// The diamond at the bottom-right pocket, `(4, 0)`.
pub fn bottom_right_diamond() -> (r: Position)
    ensures
        r.wf(),
        r.resolved(),
        r.x@ == rat_int(4),
        r.y@ == rat_int(0),
{
    Position::at_diamonds(4, 0)
}

/// The diamond at the bottom-left pocket, `(0, 0)`.
pub fn bottom_left_diamond() -> (r: Position)
    ensures
        r.wf(),
        r.resolved(),
        r.x@ == rat_int(0),
        r.y@ == rat_int(0),
{
    Position::at_diamonds(0, 0)
}

/// The diamond at the middle of the left rail, `(0, 4)`.
pub fn side_left_diamond() -> (r: Position)
    ensures
        r.wf(),
        r.resolved(),
        r.x@ == rat_int(0),
        r.y@ == rat_int(4),
{
    Position::at_diamonds(0, 4)
}

/// The diamond at the top-left pocket, `(0, 8)`.
pub fn top_left_diamond() -> (r: Position)
    ensures
        r.wf(),
        r.resolved(),
        r.x@ == rat_int(0),
        r.y@ == rat_int(8),
{
    Position::at_diamonds(0, 8)
}

} // verus!
