use vstd::prelude::*;
use super::game_service::PlayerIdentity;

verus! {

/// A board cell on the wire.
#[derive(Debug, Clone, Copy, PartialEq, Eq)]
pub struct Position {
    pub x: u32,
    pub y: u32,
}

/// A winning line on the wire.
#[derive(Debug, Clone, Copy, PartialEq, Eq)]
pub struct WinningLine {
    pub start_x: u32,
    pub start_y: u32,
    pub end_x: u32,
    pub end_y: u32,
}

/// A marked cell on the wire, with the mark's wire code.
#[derive(Debug, Clone, Copy, PartialEq, Eq)]
pub struct CellMark {
    pub x: u32,
    pub y: u32,
    pub mark: i32,
}

/// A tic-tac-toe game on the wire: the marked cells, the board's size and
/// line length, the status code, the players and the last move.
#[derive(Debug, Clone, PartialEq, Eq)]
pub struct TicTacToeGameState {
    pub board: Vec<CellMark>,
    pub field_width: u32,
    pub field_height: u32,
    pub win_count: u32,
    pub status: i32,
    pub player_x: Option<PlayerIdentity>,
    pub player_o: Option<PlayerIdentity>,
    pub current_player: Option<PlayerIdentity>,
    pub last_move: Option<Position>,
}

/// Kind of tic-tac-toe bot.
#[derive(Debug, Clone, Copy, PartialEq, Eq, Structural)]
pub enum TicTacToeBotType {
    TictactoeBotTypeUnspecified,
    TictactoeBotTypeRandom,
    TictactoeBotTypeMinimax,
}

/// First-player choice on the wire.
#[derive(Debug, Clone, Copy, PartialEq, Eq, Structural)]
pub enum FirstPlayerMode {
    Unspecified,
    Random,
    Host,
}

/// Tic-tac-toe lobby settings on the wire.
#[derive(Debug, Clone, Copy, PartialEq, Eq)]
pub struct TicTacToeLobbySettings {
    pub field_width: u32,
    pub field_height: u32,
    pub win_count: u32,
    pub first_player: FirstPlayerMode,
}

} // verus!
