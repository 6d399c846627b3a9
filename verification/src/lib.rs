//! Core simulation engine for a two-paddle ball-bounce game.
//!
//! The library covers the per-tick update pipeline: paddle control,
//! position integration, circle-vs-rectangle collision detection and
//! response, scoring derived from collisions, and the countdown hold
//! that halts ball motion after a score.  Rendering, window handling
//! and raw input capture live outside the library; they hand in plain
//! values (key state, window size, elapsed milliseconds) and read the
//! resulting positions, scores and countdown state back out.

pub mod ball;
pub mod border;
pub mod game_manager;
pub mod paddle;
pub mod utils;
pub mod world;
