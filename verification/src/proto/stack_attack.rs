use vstd::prelude::*;

verus! {

#[derive(Debug, Clone, Copy, PartialEq, Eq, Structural)]
pub enum HorizontalDirection {
    Unspecified,
    Left,
    Right,
}

#[derive(Debug, Clone, Copy, PartialEq, Eq, Structural)]
pub enum WorkerState {
    Unspecified,
    Grounded,
    Jumping,
    Falling,
}

#[derive(Debug, Clone, Copy, PartialEq, Eq, Structural)]
pub enum CraneState {
    Unspecified,
    Moving,
    Dropping,
    Leaving,
}

#[derive(Debug, Clone, Copy, PartialEq, Eq, Structural)]
pub enum StackAttackGameEndReason {
    Unspecified,
    WorkerCrushed,
    BoxesReachedCeiling,
    PlayerDisconnected,
}

/// A box on the wire.
#[derive(Debug, Clone, Copy, PartialEq, Eq)]
pub struct Box {
    pub id: u32,
    pub x: i32,
    pub y: i32,
    pub pattern_id: u32,
    pub falling: bool,
}

/// A cleared row and the points it earned.
#[derive(Debug, Clone, Copy, PartialEq, Eq)]
pub struct LineClearedEvent {
    pub y: i32,
    pub points_earned: u32,
}

/// Lobby settings of a stack attack game (it has none to choose).
#[derive(Debug, Clone, Copy, PartialEq, Eq)]
pub struct StackAttackLobbySettings {}

} // verus!
