//! The state of a running game, whichever game it is.

use vstd::prelude::*;
use crate::snake::game::GameState as SnakeGameState;
use crate::tictactoe::game_state::TicTacToeGameState;

verus! {

/// The state of a running game session.
#[derive(Debug)]
pub enum GameStateEnum {
    Snake(SnakeGameState),
    TicTacToe(TicTacToeGameState),
}

} // verus!
