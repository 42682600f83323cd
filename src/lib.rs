//! A Snake game core: a fixed grid, a snake that grows on food, death by
//! collision with a wall or itself, and a win once the grid is nearly full.
//!
//! The game state advances one tick at a time; every tick is specified
//! exactly over a mathematical model of the state, so that the invariants
//! of the game (the snake's length, food never under the snake, terminal
//! phases) are proved rather than tested.

pub mod food;
pub mod game;
pub mod grid;
pub mod laws;
