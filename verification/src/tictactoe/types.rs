use vstd::prelude::*;
use crate::proto::tictactoe as proto;

verus! {

/// Content of a tic-tac-toe cell.
#[derive(Clone, Copy, Debug, PartialEq, Eq, Structural)]
pub enum Mark {
    Empty,
    X,
    O,
}

/// The wire code of a mark.
pub open spec fn mark_code(m: Mark) -> i32 {
    match m {
        Mark::Empty => 1,
        Mark::X => 2,
        Mark::O => 3,
    }
}

/// The other player's mark; an empty cell has no opponent.
pub open spec fn opponent_of(m: Mark) -> Option<Mark> {
    match m {
        Mark::X => Some(Mark::O),
        Mark::O => Some(Mark::X),
        Mark::Empty => None,
    }
}

impl Mark {
    pub fn to_proto(self) -> (r: i32)
        ensures
            r == mark_code(self),
    {
        match self {
            Mark::Empty => 1,
            Mark::X => 2,
            Mark::O => 3,
        }
    }

    pub fn opponent(&self) -> (r: Option<Mark>)
        ensures
            r == opponent_of(*self),
    {
        match self {
            Mark::X => Some(Mark::O),
            Mark::O => Some(Mark::X),
            Mark::Empty => None,
        }
    }
}

/// The opponent relation is an involution on the two player marks, and
/// the opponent of a player mark is the other player mark.
pub proof fn lemma_opponent_involution(m: Mark)
    requires
        m != Mark::Empty,
    ensures
        opponent_of(m) is Some,
        opponent_of(m).unwrap() != m,
        opponent_of(m).unwrap() != Mark::Empty,
        opponent_of(opponent_of(m).unwrap()) == Some(m),
{
}

/// Progress of a tic-tac-toe game.
#[derive(Clone, Copy, Debug, PartialEq, Eq, Structural)]
pub enum GameStatus {
    InProgress,
    XWon,
    OWon,
    Draw,
}

/// The wire code of a game status.
pub open spec fn status_code(s: GameStatus) -> i32 {
    match s {
        GameStatus::InProgress => 1,
        GameStatus::XWon => 2,
        GameStatus::OWon => 3,
        GameStatus::Draw => 4,
    }
}

impl GameStatus {
    pub fn to_proto(self) -> (r: i32)
        ensures
            r == status_code(self),
    {
        match self {
            GameStatus::InProgress => 1,
            GameStatus::XWon => 2,
            GameStatus::OWon => 3,
            GameStatus::Draw => 4,
        }
    }
}

/// Distinct statuses, and distinct marks, have distinct wire codes.
pub proof fn lemma_codes_injective(a: GameStatus, b: GameStatus, m: Mark, n: Mark)
    ensures
        status_code(a) == status_code(b) ==> a == b,
        mark_code(m) == mark_code(n) ==> m == n,
{
}

/// Who moves first.
#[derive(Clone, Copy, Debug, PartialEq, Eq, Structural)]
pub enum FirstPlayerMode {
    Random,
    Host,
}

/// A cell of the board.
#[derive(Debug, Clone, Copy, PartialEq, Eq, Structural)]
pub struct Position {
    pub x: usize,
    pub y: usize,
}

impl Position {
    pub fn new(x: usize, y: usize) -> (r: Self)
        ensures
            r.x == x,
            r.y == y,
    {
        Self { x, y }
    }

    pub fn to_proto(self) -> (r: proto::Position)
        ensures
            r.x == self.x as u32,
            r.y == self.y as u32,
    {
        proto::Position { x: self.x as u32, y: self.y as u32 }
    }
}

/// A completed line of marks, from its first to its last cell.
#[derive(Debug, Clone, Copy)]
pub struct WinningLine {
    pub mark: Mark,
    pub start: Position,
    pub end: Position,
}

impl WinningLine {
    pub fn new(mark: Mark, start: Position, end: Position) -> (r: Self)
        ensures
            r.mark == mark,
            r.start == start,
            r.end == end,
    {
        Self { mark, start, end }
    }

    pub fn to_proto(self) -> (r: proto::WinningLine)
        ensures
            r.start_x == self.start.x as u32,
            r.start_y == self.start.y as u32,
            r.end_x == self.end.x as u32,
            r.end_y == self.end.y as u32,
    {
        proto::WinningLine {
            start_x: self.start.x as u32,
            start_y: self.start.y as u32,
            end_x: self.end.x as u32,
            end_y: self.end.y as u32,
        }
    }
}

} // verus!
