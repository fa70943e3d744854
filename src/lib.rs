//! Simulation core of a grid snake game: heading arbitration, chained
//! segment movement, wall and self collision, food placement, growth and
//! reset, advanced one tick at a time.

mod game;
mod grid;
mod laws;
mod random;

pub use game::{place_food, random_cell, spawn_tick, FrameState, Game, GameView, MoveOutcome, Piece, FOOD_CAP, SPAWN_X, SPAWN_Y};
pub use grid::{direction_from_keys, Cell, Direction};
pub use laws::{heading_arbitration, initial_settled, tick_keeps_settled, placement_avoids_snake, reset_restores_spawn, spawn_avoids_snake, tick_chain, tick_length};
