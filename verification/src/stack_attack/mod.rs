//! Stack attack: workers push boxes dropped by cranes and clear full rows.

pub mod types;
pub mod box_entity;
pub mod settings;
pub mod game_state;
