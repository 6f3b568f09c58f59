//! A verified engine for a grid Snake game.
//!
//! The engine owns the grid dimensions, the snake body, the apple, the
//! current direction and the stopped flag, and exposes the per-tick
//! transition rule together with the direction guard, apple placement and
//! the cell classification that a renderer reads.

mod game;

pub use game::Cell;
pub use game::Direction;
pub use game::Game;
