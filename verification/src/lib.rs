//! A deterministic, turn-based snake simulation on a bounded grid.
//!
//! The engine tracks the snake's head and body, advances one cell per tick
//! in a player-chosen direction, detects wall and self collisions, and
//! manages food consumption and growth. Levels are built from a small
//! textual format.

pub mod common;
pub mod game;
pub mod grid;
pub mod laws;
pub mod parse;
