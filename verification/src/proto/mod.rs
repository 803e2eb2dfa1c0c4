//! Plain message records that the games hand to the transport layer.

pub mod tictactoe;
pub mod stack_attack;
pub mod puzzle2048;
pub mod numbers_match;
pub mod game_service;
pub mod replay;
pub mod snake;
