//! A discrete-time epidemic simulator: entities commute between buildings on
//! a grid, carry a pathogen through a health state machine, and pass it on
//! when they come close. World space is fixed-point: one world unit is
//! `UNIT` sub-units, and probabilities are counted in millionths.

pub mod geometry;
pub mod random;
pub mod health;
pub mod route;
pub mod entity;
pub mod census;
pub mod simulation;

pub use census::{census, Datum};
pub use entity::{reaches, Building, BuildingKind, Entity};
pub use geometry::{block_to_pos, fuzz, jitter, manhattan, recenter, snap, Block, Pos, CELL_WIDTH, FUZZ_SPAN, UNIT};
pub use health::{Days, Status, Virus, ROLL_SCALE};
pub use route::{plan_route, Waypoint};
pub use simulation::Simulation;
