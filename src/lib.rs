//! Simulation core of a wrap-around snake game: board geometry, the worm's
//! movement, growth and self-collision, the tick scheduler, direction control
//! and fruit placement.
//!
//! Coordinates are whole world units on a grid of `CELL_SIZE` steps centred on
//! the origin; time is counted in whole nanoseconds.

pub mod board;
pub mod direction;
pub mod fruit;
pub mod game;
pub mod worm;
