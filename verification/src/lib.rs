//! Simulation core of a single-screen arcade game: an avatar dodges and shoots
//! falling obstacles, scores points and keeps a high score.
//!
//! Every length is an integer number of units, a thousandth of a pixel, and
//! every duration an integer number of microseconds, so that geometry and
//! movement are exact. Rendering, input sampling and storage stay with the
//! caller: a frame takes the sampled input and hands back what to draw,
//! persist or end.

pub mod avatar;
pub mod entity;
pub mod geometry;
pub mod laws;
pub mod persistence;
pub mod session;
pub mod simulation;
pub mod spawner;
pub mod units;
pub mod world;
