//! A fixed-tick 2D action-game simulation rendered to a character grid.
//!
//! The library holds the simulation core: shape-mask collision, entity
//! update rules (movement, acceleration, damage, lifecycle), input intent
//! tracking, and frame-buffer compositing.  Positions and velocities are
//! kept in tenths of a character cell, so every update rule is exact
//! integer arithmetic.  Terminal I/O and the async tick loop live outside
//! the library and hand it plain values.

pub mod collision;
pub mod enemy;
pub mod game;
pub mod input;
pub mod player;
pub mod projectile;
pub mod render;
pub mod shape;
pub mod units;

pub use collision::shapes_collide;
pub use enemy::{Enemy, MovementPattern};
pub use game::GameState;
pub use input::{InputEvent, InputState, Key};
pub use player::Player;
pub use projectile::{Projectile, Team};
pub use render::RenderBuffer;
pub use shape::ShapeMask;
