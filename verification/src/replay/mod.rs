//! Replays of recorded games: command handling and progress estimates.

pub mod session;
pub mod actions;
pub mod playback;
pub mod state;
