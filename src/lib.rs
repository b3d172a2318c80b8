//! A falling-block puzzle simulation: shapes spawn at the top of a board,
//! fall one row per timer interval, and come to rest in an occupancy grid.

pub mod board;
pub mod catalog;
pub mod game;
pub mod screen;
pub mod timer;
