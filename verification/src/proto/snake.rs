use vstd::prelude::*;
use super::game_service::PlayerIdentity;

verus! {

/// A snake's heading on the wire.
#[derive(Debug, Clone, Copy, PartialEq, Eq, Structural)]
pub enum Direction {
    Unspecified,
    Up,
    Down,
    Left,
    Right,
}

/// What hitting the edge of the field does, on the wire.
#[derive(Debug, Clone, Copy, PartialEq, Eq, Structural)]
pub enum WallCollisionMode {
    Unspecified,
    Death,
    WrapAround,
}

/// What becomes of dead snakes, on the wire.
#[derive(Debug, Clone, Copy, PartialEq, Eq, Structural)]
pub enum DeadSnakeBehavior {
    Unspecified,
    Disappear,
    StayOnField,
}

/// A cell on the wire.
#[derive(Debug, Clone, Copy, PartialEq, Eq, Structural)]
pub struct Position {
    pub x: i32,
    pub y: i32,
}

/// A snake on the wire: its player, its body from head to tail, whether
/// it lives, and its score.
#[derive(Debug, Clone, PartialEq, Eq)]
pub struct Snake {
    pub identity: Option<PlayerIdentity>,
    pub segments: Vec<Position>,
    pub alive: bool,
    pub score: u32,
}

/// A snake game on the wire.
#[derive(Debug, Clone, PartialEq, Eq)]
pub struct SnakeGameState {
    pub tick: u64,
    pub snakes: Vec<Snake>,
    pub food: Vec<Position>,
    pub field_width: u32,
    pub field_height: u32,
    pub tick_interval_ms: u32,
    pub wall_collision_mode: WallCollisionMode,
    pub dead_snake_behavior: DeadSnakeBehavior,
}

} // verus!
