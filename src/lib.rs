//! Gameplay simulation core of a small top-down action game: movement with
//! axis-aligned collision resolution, enemy steering, sprite animation and
//! facing, depth layering, health, and the menu/game state machine.
//!
//! All quantities are integers. Positions, sizes and displacements are
//! counted in sub-units (`geometry::UNIT` to a world unit), fine enough that a
//! tick's displacement is exact; speeds are world units per second and time
//! steps milliseconds. Headings are unnormalized integer vectors, and unit
//! vectors are fixed-point values scaled by `geometry::NORMAL_SCALE`.

mod geometry_lemmas;

pub mod geometry;
pub mod movement;
pub mod sprite;
pub mod health;
pub mod enemy;
pub mod state;
pub mod world;
pub mod systems;
pub mod setup;
pub mod game;
