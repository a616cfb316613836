//! Simulation core of a grid-based Snake game.

pub mod direction;
pub mod food;
pub mod game;
pub mod grid;
pub mod input;
pub mod laws;
pub mod snake;
pub mod timer;
