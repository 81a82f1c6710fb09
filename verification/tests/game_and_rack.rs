//! Game state orchestration: racking, rail freezing, shift resolution,
//! ghost balls, distances, and the pixel projection.

use billiards::position::{center_spot, rack_spot};
use billiards::{
    diamond_to_pixel, ideal_ball_size_px, Angle, Ball, BallSpec, BallType, Color,
    CueballModifier, Diamond, Displacement, GameState, GameType, Inches, Position, Rail, Ratio,
    TableSpec,
};

fn new_game(balls: Vec<Ball>) -> GameState {
    GameState {
        table_spec: TableSpec::brunswick_gc4_9ft(),
        ball_positions: balls,
        ty: GameType::default(),
        cueball_modifier: CueballModifier::default(),
        lines_to_draw: Vec::new(),
    }
}

fn ball_at(ty: BallType, x: i64, y: i64) -> Ball {
    Ball { ty, position: Position::at_diamonds(x, y), spec: BallSpec::default() }
}

#[test]
fn freeze_to_bottom_rail_offsets_by_the_radius() {
    // 1.125 in on a 12.5 in-per-diamond table is 0.09 diamonds.
    let mut gs = new_game(Vec::new());
    gs.freeze_to_rail(Rail::Bottom, Diamond::one(), ball_at(BallType::One, 0, 0));
    let b = &gs.ball_positions[0];
    assert_eq!(b.position.y, Diamond { magnitude: Ratio::new(9, 100) });
    assert_eq!(b.position.x, Diamond::one());
}

#[test]
fn freeze_to_each_rail() {
    let mut gs = new_game(Vec::new());
    gs.freeze_to_rail(Rail::Top, Diamond::two(), ball_at(BallType::Two, 0, 0));
    gs.freeze_to_rail(Rail::Right, Diamond::six(), ball_at(BallType::Six, 0, 0));
    gs.freeze_to_rail(Rail::Left, Diamond::three(), ball_at(BallType::Three, 0, 0));
    assert_eq!(gs.ball_positions[0].position.y, Diamond { magnitude: Ratio::new(791, 100) });
    assert_eq!(gs.ball_positions[0].position.x, Diamond::two());
    assert_eq!(gs.ball_positions[1].position.x, Diamond { magnitude: Ratio::new(391, 100) });
    assert_eq!(gs.ball_positions[1].position.y, Diamond::six());
    assert_eq!(gs.ball_positions[2].position.x, Diamond { magnitude: Ratio::new(9, 100) });
    assert_eq!(gs.ball_positions[2].position.y, Diamond::three());
}

#[test]
fn select_ball_finds_exactly_the_present_kinds() {
    let gs = new_game(vec![ball_at(BallType::Cue, 2, 4), ball_at(BallType::Nine, 2, 2)]);
    assert_eq!(gs.select_ball(BallType::Nine).unwrap().position.y, Diamond::two());
    assert_eq!(gs.select_ball(BallType::Cue).unwrap().position.y, Diamond::four());
    assert!(gs.select_ball(BallType::Eight).is_none());
}

#[test]
fn resolving_twice_changes_nothing() {
    let mut gs = new_game(billiards::game::rack_9_ball());
    gs.resolve_positions();
    let snapshot: Vec<(Diamond, Diamond)> =
        gs.ball_positions.iter().map(|b| (b.position.x, b.position.y)).collect();
    for b in &gs.ball_positions {
        assert!(b.position.unresolved_x_shift.is_none());
        assert!(b.position.unresolved_y_shift.is_none());
    }
    gs.resolve_positions();
    for (b, (x, y)) in gs.ball_positions.iter().zip(snapshot.iter()) {
        assert_eq!(b.position.x, *x);
        assert_eq!(b.position.y, *y);
    }
}

#[test]
fn rack_layout_shapes_the_nine_ball_diamond() {
    let balls = billiards::game::rack_9_ball();
    assert_eq!(balls.len(), 9);
    let order = [
        BallType::One,
        BallType::Two,
        BallType::Three,
        BallType::Four,
        BallType::Nine,
        BallType::Five,
        BallType::Six,
        BallType::Seven,
        BallType::Eight,
    ];
    for (b, ty) in balls.iter().zip(order.iter()) {
        assert_eq!(b.ty, *ty);
    }
    // The lead ball sits on the rack spot, already resolved.
    assert_eq!(balls[0].position.x, rack_spot().x);
    assert_eq!(balls[0].position.y, rack_spot().y);
    assert!(balls[0].position.unresolved_x_shift.is_none());
    // The second row hangs a radius left and a row height down.
    assert_eq!(
        balls[1].position.unresolved_x_shift.unwrap(),
        Inches { magnitude: Ratio::new(-9, 8) }
    );
    assert_eq!(
        balls[1].position.unresolved_y_shift.unwrap(),
        Inches { magnitude: Ratio::new(-155884572, 80000000) }
    );
    // Same-row neighbors are two radii apart in pending shifts.
    assert_eq!(
        balls[2].position.unresolved_x_shift.unwrap(),
        Inches { magnitude: Ratio::new(9, 8) }
    );
}

#[test]
fn rack_spacing_is_one_ball_diameter() {
    let mut gs = new_game(billiards::game::rack_9_ball());
    gs.resolve_positions();
    let table = gs.table_spec;
    let diameter = Inches { magnitude: Ratio::new(9, 4) };
    // Same-row spacing: the two second-row balls.
    let two = *gs.select_ball(BallType::Two).unwrap();
    let three = *gs.select_ball(BallType::Three).unwrap();
    assert_eq!(table.diamond_to_inches(two.distance(&three)), diameter);
    // Lead ball to either second-row ball.
    let one = *gs.select_ball(BallType::One).unwrap();
    assert_eq!(table.diamond_to_inches(one.distance(&two)), diameter);
    assert_eq!(table.diamond_to_inches(one.distance(&three)), diameter);
}

#[test]
fn ghost_ball_out_and_back_returns_exactly() {
    let table = TableSpec::brunswick_gc4_9ft();
    for deg in [0i64, 37, 90, 123, 211, 300] {
        let a = Angle::from_degrees(deg);
        let start = Position::at_diamonds(2, 6);
        let mut roundtrip = start.translate_ghost_ball(a).translate_ghost_ball(a.flipped());
        roundtrip.resolve_shifts(&table);
        assert_eq!(roundtrip.x, start.x);
        assert_eq!(roundtrip.y, start.y);
        assert!(roundtrip.unresolved_x_shift.is_none());
        assert!(roundtrip.unresolved_y_shift.is_none());
    }
}

#[test]
fn ghost_ball_step_is_one_diameter() {
    // Ghost ball due south of a target, then resolved: exactly one
    // ball diameter (2.25 in = 0.18 diamonds) below the target.
    let table = TableSpec::brunswick_gc4_9ft();
    let target = Position::at_diamonds(2, 6);
    let mut ghost = target.translate_ghost_ball(Angle::from_degrees(180));
    ghost.resolve_shifts(&table);
    assert_eq!(ghost.x, Diamond::two());
    assert_eq!(ghost.y, Diamond::six().sub(Diamond { magnitude: Ratio::new(9, 50) }));
}

#[test]
fn distances_come_out_in_diamonds() {
    let a = ball_at(BallType::Cue, 0, 0);
    let b = ball_at(BallType::Nine, 3, 4);
    // A 3-4-5 triangle, exactly.
    assert_eq!(a.distance(&b), Diamond::five());
    let d = a.displacement(&b);
    assert_eq!(d.dx, Diamond::three());
    assert_eq!(d.dy, Diamond::four());
}

#[test]
fn absolute_distance_rounds_to_four_places() {
    let d = Displacement { dx: Diamond::one(), dy: Diamond::one() };
    // The square root of two, truncated to four decimal places.
    assert_eq!(d.absolute_distance(), Diamond { magnitude: Ratio::new(14142, 10000) });
}

#[test]
fn merge_unset_component_fills_the_zero_axis() {
    let p = Position::zeroed().merge_unset_component(Diamond::two());
    assert_eq!(p.x, Diamond::two());
    assert_eq!(p.y, Diamond::zero());
    let q = p.merge_unset_component(Diamond::three());
    assert_eq!(q.x, Diamond::two());
    assert_eq!(q.y, Diamond::three());
}

#[test]
fn shifts_accumulate_until_resolved() {
    let table = TableSpec::brunswick_gc4_9ft();
    let mut p = rack_spot();
    p.shift_horizontally(Diamond::one());
    p.shift_vertically(Diamond::two());
    assert_eq!(p.x, Diamond::three());
    assert_eq!(p.y, Diamond::four());
    p.shift_horizontally_inches(Inches { magnitude: Ratio::new(25, 2) });
    p.shift_horizontally_inches(Inches { magnitude: Ratio::new(25, 2) });
    p.shift_vertically_inches(Inches { magnitude: Ratio::new(-25, 4) });
    p.resolve_shifts(&table);
    // 25 inches is two diamonds; -6.25 inches is half a diamond back.
    assert_eq!(p.x, Diamond::five());
    assert_eq!(p.y, Diamond { magnitude: Ratio::new(7, 2) });
    assert!(p.unresolved_x_shift.is_none() && p.unresolved_y_shift.is_none());
}

#[test]
fn rails_know_their_orientation_and_origin() {
    assert!(Rail::Left.is_vertical());
    assert!(Rail::Right.is_vertical());
    assert!(!Rail::Top.is_vertical());
    assert!(Rail::Top.is_horizontal());
    assert!(Rail::Bottom.is_horizontal());
    assert!(!Rail::Left.is_horizontal());
    let o = Rail::Top.rail_origin();
    assert_eq!(o.x, Diamond::zero());
    assert_eq!(o.y, Diamond::eight());
    let r = Rail::Right.rail_origin();
    assert_eq!(r.x, Diamond::four());
    assert_eq!(r.y, Diamond::zero());
}

#[test]
fn overlay_lines_are_recorded_for_the_renderer() {
    let mut gs = new_game(Vec::new());
    let black = Color { red: 0, green: 0, blue: 0, alpha: 255 };
    gs.add_dotted_line(&center_spot(), &rack_spot(), black);
    assert_eq!(gs.lines_to_draw.len(), 1);
    assert_eq!(gs.lines_to_draw[0].from.y, Diamond::four());
    assert_eq!(gs.lines_to_draw[0].to.y, Diamond::two());
    assert_eq!(gs.lines_to_draw[0].color, black);
}

#[test]
fn projection_onto_the_standard_diagram() {
    assert_eq!(ideal_ball_size_px(), 41);
    assert_eq!(diamond_to_pixel(&center_spot()), (548, 963));
    assert_eq!(diamond_to_pixel(&billiards::position::bottom_left_diamond()), (56, 1884));
    assert_eq!(diamond_to_pixel(&billiards::position::top_right_diamond()), (1040, 42));
}

#[test]
fn default_game_knobs() {
    assert_eq!(GameType::default(), GameType::NineBall);
    assert_eq!(CueballModifier::default(), CueballModifier::AsItLays);
    assert_eq!(BallSpec::default().radius, Inches { magnitude: Ratio::new(9, 8) });
}
