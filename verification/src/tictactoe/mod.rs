//! Tic-tac-toe on boards of any size, with a configurable line length.

pub mod types;
pub mod board;
pub mod win_detector;
pub mod game_state;
pub mod bot_controller;
pub mod settings;
pub mod incremental;
pub mod turns;
pub mod win_link;
