use vstd::prelude::*;
use crate::proto::stack_attack as proto;

verus! {

#[derive(Debug, Clone, Copy, PartialEq, Eq, Hash, Structural)]
pub struct Point {
    pub x: i32,
    pub y: i32,
}

impl Point {
    pub fn new(x: i32, y: i32) -> (r: Self)
        ensures
            r.x == x,
            r.y == y,
    {
        Self { x, y }
    }
}

#[derive(Debug, Clone, Copy, PartialEq, Eq)]
pub struct FieldSize {
    pub width: u32,
    pub height: u32,
}

#[derive(Debug, Clone, Copy, PartialEq, Eq, Structural)]
pub enum HorizontalDirection {
    Left,
    Right,
}

/// The wire value of a direction.
pub open spec fn direction_code(d: HorizontalDirection) -> proto::HorizontalDirection {
    match d {
        HorizontalDirection::Left => proto::HorizontalDirection::Left,
        HorizontalDirection::Right => proto::HorizontalDirection::Right,
    }
}

/// The direction a wire value names, if any.
pub open spec fn direction_of(p: proto::HorizontalDirection) -> Option<HorizontalDirection> {
    match p {
        proto::HorizontalDirection::Left => Some(HorizontalDirection::Left),
        proto::HorizontalDirection::Right => Some(HorizontalDirection::Right),
        proto::HorizontalDirection::Unspecified => None,
    }
}

impl HorizontalDirection {
    /// The column step: -1 to the left, +1 to the right.
    pub fn dx(&self) -> (r: i32)
        ensures
            r == (match *self {
                HorizontalDirection::Left => -1int,
                HorizontalDirection::Right => 1int,
            }),
    {
        match self {
            HorizontalDirection::Left => -1,
            HorizontalDirection::Right => 1,
        }
    }

    pub fn from_proto(p: proto::HorizontalDirection) -> (r: Option<Self>)
        ensures
            r == direction_of(p),
    {
        match p {
            proto::HorizontalDirection::Left => Some(HorizontalDirection::Left),
            proto::HorizontalDirection::Right => Some(HorizontalDirection::Right),
            proto::HorizontalDirection::Unspecified => None,
        }
    }

    pub fn to_proto(self) -> (r: proto::HorizontalDirection)
        ensures
            r == direction_code(self),
    {
        match self {
            HorizontalDirection::Left => proto::HorizontalDirection::Left,
            HorizontalDirection::Right => proto::HorizontalDirection::Right,
        }
    }
}

/// Converting a direction to its wire value and back gives the direction
/// back, and only the unspecified wire value names no direction.
pub proof fn lemma_direction_round_trip(d: HorizontalDirection, p: proto::HorizontalDirection)
    ensures
        direction_of(direction_code(d)) == Some(d),
        direction_of(p) is None <==> p == proto::HorizontalDirection::Unspecified,
        direction_of(p) matches Some(e) ==> direction_code(e) == p,
{
}

#[derive(Debug, Clone, Copy, PartialEq, Eq, Structural)]
pub enum WorkerState {
    Grounded,
    Jumping,
    Falling,
}

impl WorkerState {
    pub fn to_proto(self) -> (r: proto::WorkerState)
        ensures
            self == WorkerState::Grounded ==> r == proto::WorkerState::Grounded,
            self == WorkerState::Jumping ==> r == proto::WorkerState::Jumping,
            self == WorkerState::Falling ==> r == proto::WorkerState::Falling,
    {
        match self {
            WorkerState::Grounded => proto::WorkerState::Grounded,
            WorkerState::Jumping => proto::WorkerState::Jumping,
            WorkerState::Falling => proto::WorkerState::Falling,
        }
    }
}

#[derive(Debug, Clone, Copy, PartialEq, Eq, Structural)]
pub enum CraneState {
    Moving,
    Dropping,
    Leaving,
}

impl CraneState {
    pub fn to_proto(self) -> (r: proto::CraneState)
        ensures
            self == CraneState::Moving ==> r == proto::CraneState::Moving,
            self == CraneState::Dropping ==> r == proto::CraneState::Dropping,
            self == CraneState::Leaving ==> r == proto::CraneState::Leaving,
    {
        match self {
            CraneState::Moving => proto::CraneState::Moving,
            CraneState::Dropping => proto::CraneState::Dropping,
            CraneState::Leaving => proto::CraneState::Leaving,
        }
    }
}

#[derive(Debug, Clone, Copy, PartialEq, Eq, Structural)]
pub enum GameOverReason {
    WorkerCrushed,
    BoxesReachedCeiling,
    PlayerDisconnected,
}

impl GameOverReason {
    pub fn to_proto(self) -> (r: proto::StackAttackGameEndReason)
        ensures
            self == GameOverReason::WorkerCrushed ==> r == proto::StackAttackGameEndReason::WorkerCrushed,
            self == GameOverReason::BoxesReachedCeiling ==> r == proto::StackAttackGameEndReason::BoxesReachedCeiling,
            self == GameOverReason::PlayerDisconnected ==> r == proto::StackAttackGameEndReason::PlayerDisconnected,
    {
        match self {
            GameOverReason::WorkerCrushed => proto::StackAttackGameEndReason::WorkerCrushed,
            GameOverReason::BoxesReachedCeiling => proto::StackAttackGameEndReason::BoxesReachedCeiling,
            GameOverReason::PlayerDisconnected => proto::StackAttackGameEndReason::PlayerDisconnected,
        }
    }
}

/// What an attempted worker move did.
#[derive(Debug, Clone, Copy, PartialEq, Eq, Structural)]
pub enum MoveResult {
    Moved,
    Blocked,
    PushedBox(u32),
}

} // verus!
