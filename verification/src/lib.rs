//! A minimal real-time tile-grid simulation core.
//!
//! A player and a set of autonomously moving actors occupy discrete grid
//! cells. Input produces a pending movement intent on the player; a resolver
//! shifts tile coordinates by one cell per pending intent; an easer glides
//! each rendered pixel position a fixed step toward its tile's projection;
//! a collector turns the current state into a list of colored squares.
//! The host owns the window, the clock and the input device; this crate
//! owns the state and the update pipeline.

pub mod easing;
pub mod entity;
pub mod laws;
pub mod stages;
pub mod world;
