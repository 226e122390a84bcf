//! The simulation core of a two-paddle ball game: a fixed court, a paddle for
//! the player on the left, a scripted paddle on the right, one ball, and the
//! round and pause state machine that decides which of them move.
//!
//! The library computes in fixed point (see [`fixed`]), so that every step
//! is an exact function of the state before it.

pub mod collision;
pub mod court;
pub mod entity;
pub mod fixed;
pub mod menu;
pub mod motion;
pub mod round;
pub mod sim;
pub mod state;
pub mod vector;
