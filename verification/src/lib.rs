//! Simulation core of a grid-based snake game.
//!
//! The world is a small entity table plus the ordered list of snake entities.
//! Every stage of a movement tick is a function with a contract over the
//! snake's head-to-tail sequence of positions and the contents of the table.

pub mod grid;
pub mod direction;
pub mod store;
pub mod world;
pub mod movement;
pub mod growth;
pub mod reset;
pub mod tick;
pub mod food;
pub mod laws;

pub use direction::{Direction, Keys};
pub use grid::{is_in_bounds, Position, HEIGHT, WIDTH};
pub use store::{Component, Entity, Size, Store, Tag};
pub use world::{TickReport, World};
