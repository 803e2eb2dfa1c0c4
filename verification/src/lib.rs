//! Game logic of a multi-game server: snake, tic-tac-toe, stack attack and
//! the shared identifiers, randomness and replay helpers, with contracts.

pub mod identifiers;
pub mod proto;
pub mod tictactoe;
pub mod session_rng;
pub mod snake;
pub mod stack_attack;
pub mod text;
pub mod puzzle2048;
pub mod numbers_match;
pub mod lobby;
pub mod replay;
pub mod config;
pub mod replay_session;
pub mod games;
pub mod connection;
pub mod game_over;
pub mod game_stream;
pub mod sessions;
pub mod connection_tracker;
