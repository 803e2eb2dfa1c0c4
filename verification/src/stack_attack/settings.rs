use vstd::prelude::*;
use std::time::Duration;
use crate::proto::stack_attack::StackAttackLobbySettings;

verus! {

pub const FIELD_WIDTH: u32 = 15;
pub const FIELD_HEIGHT: u32 = 10;
pub const TICK_INTERVAL_MS: u32 = 200;

pub const MIN_PLAYERS: usize = 1;
pub const MAX_PLAYERS: usize = 4;

/// The duration `Duration::from_millis` makes of `ms` milliseconds.
pub uninterp spec fn millis_duration(ms: u64) -> Duration;

/// `Duration::from_millis`: the duration of `ms` milliseconds, which
/// depends on `ms` alone. Verus sees a `Duration` as opaque, so the value
/// is given by name only.
#[verifier::external_body]
fn duration_from_millis(ms: u64) -> (r: Duration)
    ensures
        r == millis_duration(ms),
{
    Duration::from_millis(ms)
}

/// The fixed settings of a stack attack session.
#[derive(Debug, Clone, Copy, Default)]
pub struct StackAttackSessionSettings;

impl StackAttackSessionSettings {
    pub fn field_width(&self) -> (r: u32)
        ensures
            r == FIELD_WIDTH,
    {
        FIELD_WIDTH
    }

    pub fn field_height(&self) -> (r: u32)
        ensures
            r == FIELD_HEIGHT,
    {
        FIELD_HEIGHT
    }

    /// The time between ticks: `TICK_INTERVAL_MS` milliseconds.
    pub fn tick_interval(&self) -> (r: Duration)
        ensures
            r == millis_duration(TICK_INTERVAL_MS as u64),
    {
        duration_from_millis(TICK_INTERVAL_MS as u64)
    }
}

impl StackAttackLobbySettings {
    /// A lobby may hold from `MIN_PLAYERS` to `MAX_PLAYERS` players.
    pub fn validate(&self, max_players: u32) -> (r: Result<(), String>)
        ensures
            r is Ok <==> MIN_PLAYERS <= max_players <= MAX_PLAYERS,
            r matches Err(e) ==> e@ == "Stack Attack supports 1-4 players"@,
    {
        if !(MIN_PLAYERS as u32 <= max_players && max_players <= MAX_PLAYERS as u32) {
            return Err("Stack Attack supports 1-4 players".to_owned());
        }
        Ok(())
    }

    /// A game may start with `MIN_PLAYERS` to `MAX_PLAYERS` players.
    pub fn validate_player_count(&self, player_count: usize) -> (r: Result<(), String>)
        ensures
            r is Ok <==> MIN_PLAYERS <= player_count <= MAX_PLAYERS,
            player_count < MIN_PLAYERS ==> (r matches Err(e) && e@ == "Stack Attack requires at least 1 player(s)"@),
            player_count > MAX_PLAYERS ==> (r matches Err(e) && e@ == "Stack Attack allows at most 4 players"@),
    {
        if player_count < MIN_PLAYERS {
            return Err("Stack Attack requires at least 1 player(s)".to_owned());
        }
        if player_count > MAX_PLAYERS {
            return Err("Stack Attack allows at most 4 players".to_owned());
        }
        Ok(())
    }
}

} // verus!
