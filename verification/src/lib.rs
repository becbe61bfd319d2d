//! A grid-based arcade shooter, stepped one frame at a time.
//!
//! The player moves along a row of a fixed grid and fires missiles upward at
//! a sweeping formation of invaders. This crate holds the simulation: the
//! grid, the entities and their per-frame rules, the collision pass over an
//! occupancy grid, and the state machine that sequences menu and play. It
//! reads no terminal and draws nothing; callers hand it decoded keys and get
//! back the frame's occupancy grid and the next action.

pub mod entities;
pub mod game;
pub mod grid;
pub mod utils;
