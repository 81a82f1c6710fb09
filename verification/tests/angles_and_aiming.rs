//! Angle conventions, trigonometry anchors, and pocket aiming.

use billiards::{Angle, Diamond, Pocket, Position, Ratio};

fn neg_one() -> Diamond {
    Diamond::one().neg()
}

#[test]
fn from_north_hits_the_four_axes_exactly() {
    assert_eq!(Angle::from_north(Diamond::zero(), Diamond::one()).millidegrees, 0);
    assert_eq!(Angle::from_north(Diamond::one(), Diamond::zero()).millidegrees, 90_000);
    assert_eq!(Angle::from_north(Diamond::zero(), neg_one()).millidegrees, 180_000);
    assert_eq!(Angle::from_north(neg_one(), Diamond::zero()).millidegrees, 270_000);
}

#[test]
fn from_north_hits_the_diagonals_exactly() {
    assert_eq!(Angle::from_north(Diamond::one(), Diamond::one()).millidegrees, 45_000);
    assert_eq!(Angle::from_north(Diamond::one(), neg_one()).millidegrees, 135_000);
    assert_eq!(Angle::from_north(neg_one(), neg_one()).millidegrees, 225_000);
    assert_eq!(Angle::from_north(neg_one(), Diamond::one()).millidegrees, 315_000);
}

#[test]
fn from_north_stays_in_range_and_in_quadrant() {
    let vals: [i64; 7] = [-5, -2, -1, 0, 1, 3, 7];
    for &dx in vals.iter() {
        for &dy in vals.iter() {
            let a = Angle::from_north(Diamond::from_int(dx), Diamond::from_int(dy));
            assert!(0 <= a.millidegrees && a.millidegrees < 360_000);
            if dx > 0 && dy > 0 {
                assert!(a.millidegrees <= 90_000);
            }
            if dx > 0 && dy < 0 {
                assert!(90_000 <= a.millidegrees && a.millidegrees <= 180_000);
            }
            if dx < 0 && dy < 0 {
                assert!(180_000 <= a.millidegrees && a.millidegrees <= 270_000);
            }
        }
    }
}

#[test]
fn zero_displacement_defaults_to_north() {
    assert_eq!(Angle::from_north(Diamond::zero(), Diamond::zero()).millidegrees, 0);
}

#[test]
fn flipping_twice_returns_the_original_angle() {
    for m in [0i64, 1, 500, 45_000, 179_999, 180_000, 270_123, 359_999] {
        let a = Angle::from_millidegrees(m);
        assert_eq!(a.flipped().flipped(), a);
    }
    assert_eq!(Angle::from_degrees(30).flipped().millidegrees, 210_000);
    assert_eq!(Angle::from_millidegrees(300_000).flipped().millidegrees, 120_000);
}

#[test]
fn sine_and_cosine_are_exact_at_the_cardinals() {
    let one = Ratio::new(1, 1);
    let zero = Ratio::new(0, 1);
    assert_eq!(Angle::from_degrees(0).sin(), zero);
    assert_eq!(Angle::from_degrees(0).cos(), one);
    assert_eq!(Angle::from_degrees(90).sin(), one);
    assert_eq!(Angle::from_degrees(90).cos(), zero);
    assert_eq!(Angle::from_degrees(180).sin(), zero);
    assert_eq!(Angle::from_degrees(180).cos(), one.neg());
    assert_eq!(Angle::from_degrees(270).sin(), one.neg());
    assert_eq!(Angle::from_degrees(270).cos(), zero);
    // A half is exact too: the first-quadrant ratio is exact at 30.
    assert_eq!(Angle::from_degrees(30).sin(), Ratio::new(1, 2));
}

#[test]
fn angle_degrees_scalar() {
    assert_eq!(Angle::from_millidegrees(45_500).degrees(), Ratio::new(91, 2));
    assert_eq!(Angle::from_degrees(270).degrees(), Ratio::new(270, 1));
}

#[test]
fn translate_steps_in_the_named_direction() {
    let p = billiards::position::center_spot();
    let east = p.translate(Diamond::one(), Angle::from_degrees(90));
    assert_eq!(east.x, Diamond::three());
    assert_eq!(east.y, Diamond::four());
    let north = p.translate(Diamond::two(), Angle::from_degrees(0));
    assert_eq!(north.x, Diamond::two());
    assert_eq!(north.y, Diamond::six());
    let south = p.translate(Diamond::one(), Angle::from_degrees(180));
    assert_eq!(south.x, Diamond::two());
    assert_eq!(south.y, Diamond::three());
}

#[test]
fn aiming_centers_sit_inside_corner_anchors() {
    let tr = Pocket::TopRight.aiming_center();
    assert!(tr.x.lt(Diamond::four()));
    assert!(tr.y.lt(Diamond::eight()));
    assert_eq!(tr.x, Diamond { magnitude: Ratio::new(31, 8) });
    assert_eq!(tr.y, Diamond { magnitude: Ratio::new(63, 8) });
    let bl = Pocket::BottomLeft.aiming_center();
    assert!(Diamond::zero().lt(bl.x));
    assert!(Diamond::zero().lt(bl.y));
    // Side pockets aim at their raw anchor.
    let rs = Pocket::RightSide.aiming_center();
    assert_eq!(rs.x, Diamond::four());
    assert_eq!(rs.y, Diamond::four());
}

#[test]
fn pocket_anchors_and_indices() {
    assert_eq!(Pocket::TopRight.index(), 0);
    assert_eq!(Pocket::RightSide.index(), 1);
    assert_eq!(Pocket::BottomRight.index(), 2);
    assert_eq!(Pocket::BottomLeft.index(), 3);
    assert_eq!(Pocket::LeftSide.index(), 4);
    assert_eq!(Pocket::TopLeft.index(), 5);
    let a = Pocket::TopRight.anchor();
    assert_eq!(a.x, Diamond::four());
    assert_eq!(a.y, Diamond::eight());
}

#[test]
fn angle_to_pocket_straight_lines_are_exact() {
    // Straight below the top-right aiming center: due north to pot.
    let below = Position {
        x: Diamond { magnitude: Ratio::new(31, 8) },
        y: Diamond::two(),
        unresolved_x_shift: None,
        unresolved_y_shift: None,
    };
    assert_eq!(below.angle_to_pocket(Pocket::TopRight).millidegrees, 0);
    assert_eq!(below.angle_from_pocket(Pocket::TopRight).millidegrees, 180_000);
    // Straight left of the right-side pocket: due east to pot.
    let level = Position {
        x: Diamond::one(),
        y: Diamond::four(),
        unresolved_x_shift: None,
        unresolved_y_shift: None,
    };
    assert_eq!(level.angle_to_pocket(Pocket::RightSide).millidegrees, 90_000);
    assert_eq!(level.angle_from_pocket(Pocket::RightSide).millidegrees, 270_000);
}

#[test]
fn direction_from_center_ties_fall_negative() {
    assert_eq!(billiards::position::top_right_diamond().direction_from_center(), (true, true));
    assert_eq!(billiards::position::bottom_left_diamond().direction_from_center(), (false, false));
    // Exactly on the center: the negative branch, by convention.
    assert_eq!(billiards::position::center_spot().direction_from_center(), (false, false));
}
