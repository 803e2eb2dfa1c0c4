//! Multiplayer snake: movement, collisions, food, and the bots.

pub mod game;
pub mod point_set;
pub mod bot_controller;
pub mod start;
