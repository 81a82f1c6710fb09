//! Mapping table coordinates onto the standard diagram image.
//!
//! The bundled table diagram is 1089 by 1938 pixels, with the playing
//! surface spanning pixel columns 56 to 1040 and rows 42 to 1884
//! (pixel rows grow downward, diamond `y` grows upward). These
//! functions place diamond-space points and size ball sprites on that
//! raster exactly, with half-up rounding.

use crate::position::Position;
use crate::rat::{rat_le, Rat};
use vstd::arithmetic::div_mod::{lemma_div_pos_is_pos, lemma_fundamental_div_mod_converse,
    lemma_multiply_divide_lt};
use vstd::prelude::*;

verus! {

/// The pixel column of a diamond-space sideways coordinate `v`: the
/// left margin plus `v` quarters of the surface width, rounded half-up.
pub open spec fn pixel_x(v: Rat) -> int {
    (2 * (56 * v.d + 246 * v.n) + v.d) / (2 * v.d)
}

/// The pixel row of a diamond-space lengthwise coordinate `v`: the
/// bottom margin minus `v` eighths of the surface height, rounded
/// half-up; row numbers shrink as `v` grows.
pub open spec fn pixel_y(v: Rat) -> int {
    (2 * (1884 * 4 * v.d - 921 * v.n) + 4 * v.d) / (2 * 4 * v.d)
}

/// The sprite size, in pixels, at which a ball drawn on the standard
/// diagram has its true scale: the smaller pixels-per-diamond rate of
/// the two axes times the ball-diameter-to-diamond ratio of a standard
/// table (two and a quarter inches over twelve and a half), rounded.
pub fn ideal_ball_size_px() -> (r: u32)
    ensures
        r == 41,
{
    let px_per_diamond_x_quarters: u64 = 1040 - 56;
    let px_per_diamond_y_eighths: u64 = 1884 - 42;
    let smaller_num: u64 = if px_per_diamond_x_quarters * 2 <= px_per_diamond_y_eighths {
        px_per_diamond_x_quarters * 2
    } else {
        px_per_diamond_y_eighths
    };
    let scaled: u64 = smaller_num * 9;
    let rounded: u64 = (2 * scaled + 400) / 800;
    proof {
        lemma_fundamental_div_mod_converse(2int * (1842 * 9) + 400, 800int, 41int, 756int);
    }
    rounded as u32
}

/// The pixel at which a position's center sits on the standard
/// diagram. The position must be resolved and on the table: sideways
/// within `[0, 4]` and lengthwise within `[0, 8]`.
pub fn diamond_to_pixel(pos: &Position) -> (r: (i32, i32))
    requires
        pos.wf(),
        pos.resolved(),
        rat_le(Rat { n: 0, d: 1 }, pos.x@),
        rat_le(pos.x@, Rat { n: 4, d: 1 }),
        rat_le(Rat { n: 0, d: 1 }, pos.y@),
        rat_le(pos.y@, Rat { n: 8, d: 1 }),
    ensures
        r.0 == pixel_x(pos.x@),
        r.1 == pixel_y(pos.y@),
        56 <= r.0 <= 1040,
        42 <= r.1 <= 1884,
{
    let xn: i128 = pos.x.magnitude.n as i128;
    let xd: i128 = pos.x.magnitude.d as i128;
    let yn: i128 = pos.y.magnitude.n as i128;
    let yd: i128 = pos.y.magnitude.d as i128;
    proof {
        assert(0 <= xn && xn <= 4 * xd && 0 <= yn && yn <= 8 * yd) by (nonlinear_arith)
            requires
                0 * pos.x@.d <= pos.x@.n * 1,
                pos.x@.n * 1 <= 4 * pos.x@.d,
                0 * pos.y@.d <= pos.y@.n * 1,
                pos.y@.n * 1 <= 8 * pos.y@.d,
                xn == pos.x@.n,
                xd == pos.x@.d,
                yn == pos.y@.n,
                yd == pos.y@.d,
        ;
    }
    let px_num: i128 = 2 * (56 * xd + 246 * xn) + xd;
    let px: i128 = px_num / (2 * xd);
    let py_num: i128 = 2 * (1884 * 4 * yd - 921 * yn) + 4 * yd;
    let py: i128 = py_num / (2 * 4 * yd);
    proof {
        lemma_div_pos_is_pos(px_num as int, 2 * (xd as int));
        lemma_multiply_divide_lt(px_num as int, 2 * (xd as int), 1041);
        lemma_div_pos_is_pos(py_num as int, 8 * (yd as int));
        lemma_multiply_divide_lt(py_num as int, 8 * (yd as int), 1885);
        assert(px_num as int >= 2 * (56 * (xd as int)) + xd);
        assert(py_num as int >= 2 * (42 * 4 * (yd as int)) + 4 * (yd as int))
            by (nonlinear_arith)
            requires
                py_num as int == 2 * (1884 * 4 * (yd as int) - 921 * (yn as int)) + 4 * (
                yd as int),
                yn as int <= 8 * (yd as int),
        ;
        vstd::arithmetic::div_mod::lemma_div_is_ordered(
            2 * (56 * (xd as int)) + xd as int,
            px_num as int,
            2 * (xd as int),
        );
        vstd::arithmetic::div_mod::lemma_div_is_ordered(
            2 * (42 * 4 * (yd as int)) + 4 * (yd as int),
            py_num as int,
            8 * (yd as int),
        );
        lemma_fundamental_div_mod_converse(
            2 * (56 * (xd as int)) + xd as int,
            2 * (xd as int),
            56,
            xd as int,
        );
        assert(yd >= 1);
        assert(2 * (42 * 4 * (yd as int)) + 4 * (yd as int) == 42 * (8 * (yd as int)) + 4 * (
        yd as int)) by (nonlinear_arith);
        assert(0 <= 4 * (yd as int) < 8 * (yd as int));
        lemma_fundamental_div_mod_converse(
            2 * (42 * 4 * (yd as int)) + 4 * (yd as int),
            8 * (yd as int),
            42,
            4 * (yd as int),
        );
    }
    (px as i32, py as i32)
}

} // verus!
