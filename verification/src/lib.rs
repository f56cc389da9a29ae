//! The core of a game of snake: a board of cells, a snake that moves over it
//! tick by tick, an apple to eat, and the bookkeeping of a frame-rate
//! estimator.
//!
//! The library decides and never draws a random number, reads a clock or
//! touches a float. Its driver ticks the [`Universe`] with the time of its
//! own clock, offers cells for the apple until one is accepted, and blends
//! the samples it is handed into a running frame rate.
//!
//! [`world::World`] is the game as mathematics. Every function of
//! [`Universe`] is stated over it, and the laws of the game are proved of it.

pub mod fps;
pub mod geometry;
pub mod snake;
pub mod universe;
pub mod world;

pub use crate::fps::{FpsCounter, FpsSample};
pub use crate::geometry::{add_u32_i32, GRID_HEIGHT, GRID_WIDTH};
pub use crate::geometry::{Cell, Direction, DirectionName, Position, UniverseTopology};
pub use crate::snake::Snake;
pub use crate::universe::{TickOutcome, Universe};
