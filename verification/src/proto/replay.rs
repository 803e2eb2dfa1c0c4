use vstd::prelude::*;
use super::snake::Direction as SnakeDirection;
use super::stack_attack::HorizontalDirection;

verus! {

/// The game a replay records.
#[derive(Debug, Clone, Copy, PartialEq, Eq, Structural)]
pub enum Game {
    Unspecified,
    Snake,
    Tictactoe,
    NumbersMatch,
    StackAttack,
    Puzzle2048,
}

/// A viewer's command to a running replay. The requested speed is carried
/// as the bit pattern of the single-precision number the client sent.
#[derive(Debug, Clone, Copy, PartialEq, Eq, Structural)]
pub enum InReplayCommand {
    Pause,
    Resume,
    SetSpeed { speed_bits: u32 },
    StepForward,
    Restart,
}

/// A recorded in-game command of one of the games.
#[derive(Debug, Clone, Copy, PartialEq, Eq, Structural)]
pub enum GameCommand {
    SnakeTurn { direction: SnakeDirection },
    TicTacToePlace { x: u32, y: u32 },
    NumbersMatchRemovePair { first_index: u32, second_index: u32 },
    NumbersMatchRefill,
    NumbersMatchRequestHint,
    StackAttackMove { direction: HorizontalDirection },
    StackAttackJump,
}

/// What a recorded action holds: a command, possibly empty, or the
/// player's disconnection.
#[derive(Debug, Clone, Copy, PartialEq, Eq, Structural)]
pub enum ActionContent {
    Command(Option<GameCommand>),
    Disconnected,
}

/// One recorded action: its tick, the index of the acting player among
/// the replay's players, and what it holds.
#[derive(Debug, Clone, Copy, PartialEq, Eq, Structural)]
pub struct PlayerAction {
    pub tick: i64,
    pub player_index: i32,
    pub content: Option<ActionContent>,
}

} // verus!
