//! Geometry engine for planning pool (billiards) shots on a diagrammed table.
//!
//! Coordinates live in a dual-unit system: table-relative `Diamond` units
//! (4 diamonds across, 8 along) and physical `Inches`, connected by a
//! per-table scale factor. All scalar arithmetic is exact rational
//! arithmetic, so chained unit conversions never drift.

pub mod angle;
pub mod game;
pub mod laws;
pub mod parse;
pub mod pocket;
pub mod position;
pub mod projection;
pub mod rat;
pub mod ratio;
pub mod table;
pub mod units;

pub use angle::Angle;
pub use game::{rack_9_ball, racked_ball_positions, Ball, BallSpec, BallType, Color,
    CueballModifier, GameState, GameType, OverlayLine, Rail};

pub use parse::ParseDecimalError;
pub use pocket::Pocket;
pub use position::{bottom_left_diamond, bottom_right_diamond, center_spot, rack_spot,
    side_left_diamond, side_right_diamond, top_left_diamond, top_right_diamond, Displacement,
    Position};
pub use projection::{diamond_to_pixel, ideal_ball_size_px};
pub use rat::Rat;
pub use ratio::Ratio;
pub use table::{diamond_sight_nose_offset, gc4_corner_pocket_width, gc4_pocket_depth,
    gc4_side_pocket_width, typical_ball_radius, GeometryError, PocketSpec, PocketType, TableSpec};
pub use units::Diamond;
pub use units::Inches;
