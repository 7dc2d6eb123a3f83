//! Core of a paddle-and-ball brick-breaking game, stepped one frame at a
//! time. Positions and sizes are carried in nano-pixels (10^-9 of a pixel),
//! velocities in milli-pixels per second, and frame deltas in microseconds,
//! so that integrating a position over a frame is an exact multiplication.
//! A rendering layer owns windows, sprites and key polling; it hands the
//! core a key snapshot and a frame delta and draws whatever the core says.

pub mod geometry;
pub mod state;
pub mod messages;
pub mod sim;
