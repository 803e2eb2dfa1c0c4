use vstd::prelude::*;
use crate::proto::replay::{Game as ReplayGame, InReplayCommand};

verus! {

/// What a running replay has to do after a viewer's command.
#[derive(Debug, Clone, Copy, PartialEq, Eq, Structural)]
pub enum ReplayCommandResult {
    Nothing,
    StateChanged,
    SpeedChanged,
    StepForward,
    Restart,
}

/// A message to a running replay session.
#[derive(Debug, Clone, Copy, PartialEq, Eq)]
pub enum ReplaySessionCommand {
    ReplayCommand(Option<InReplayCommand>),
}

/// The display name of a game.
pub open spec fn game_name(game: ReplayGame) -> Seq<char> {
    match game {
        ReplayGame::Snake => "Snake"@,
        ReplayGame::Tictactoe => "TicTacToe"@,
        ReplayGame::NumbersMatch => "NumbersMatch"@,
        ReplayGame::StackAttack => "StackAttack"@,
        ReplayGame::Puzzle2048 => "Puzzle2048"@,
        ReplayGame::Unspecified => "Unknown"@,
    }
}

pub fn replay_game_type_name(game: ReplayGame) -> (r: &'static str)
    ensures
        r@ == game_name(game),
{
    match game {
        ReplayGame::Snake => "Snake",
        ReplayGame::Tictactoe => "TicTacToe",
        ReplayGame::NumbersMatch => "NumbersMatch",
        ReplayGame::StackAttack => "StackAttack",
        ReplayGame::Puzzle2048 => "Puzzle2048",
        ReplayGame::Unspecified => "Unknown",
    }
}

/// The game a replay's header names, refused when it names none.
pub fn replay_game_type(game: ReplayGame) -> (r: Result<ReplayGame, String>)
    ensures
        game == ReplayGame::Unspecified ==> (r matches Err(e) && e@ == "Unknown game type in replay"@),
        game != ReplayGame::Unspecified ==> r == Ok::<ReplayGame, String>(game),
{
    if game == ReplayGame::Unspecified {
        return Err("Unknown game type in replay".to_owned());
    }
    Ok(game)
}

/// Whether a replay of `game` can start, given the game whose lobby
/// settings the recording holds (`settings_of`, none when it holds none)
/// and the number of recorded players: the settings must be those of the
/// game, except for stack attack, which reads none; tic-tac-toe needs its
/// two players and stack attack at least one.
pub open spec fn can_start(game: ReplayGame, settings_of: Option<ReplayGame>, player_count: nat) -> bool {
    match game {
        ReplayGame::StackAttack => player_count > 0,
        ReplayGame::Tictactoe => settings_of == Some(game) && player_count == 2,
        ReplayGame::Unspecified => false,
        _ => settings_of == Some(game),
    }
}

/// Whether a replay can start; a replay that cannot ends at once.
pub fn replay_can_start(game: ReplayGame, settings_of: Option<ReplayGame>, player_count: usize) -> (r: bool)
    ensures
        r == can_start(game, settings_of, player_count as nat),
{
    let settings_match = match settings_of {
        Some(g) => g == game,
        None => false,
    };
    match game {
        ReplayGame::StackAttack => player_count > 0,
        ReplayGame::Tictactoe => settings_match && player_count == 2,
        ReplayGame::Unspecified => false,
        _ => settings_match,
    }
}

/// Applies a viewer's command to the pause flag and says what the replay
/// loop must do: pausing and resuming change the state, a speed request
/// changes the speed, stepping forward works only while paused, and a
/// restart restarts; an empty command does nothing.
pub fn handle_replay_command(cmd: &Option<InReplayCommand>, is_paused: &mut bool) -> (r: ReplayCommandResult)
    ensures
        *final(is_paused) == (match *cmd {
            Some(InReplayCommand::Pause) => true,
            Some(InReplayCommand::Resume) => false,
            _ => *old(is_paused),
        }),
        r == (match *cmd {
            None => ReplayCommandResult::Nothing,
            Some(InReplayCommand::Pause) => ReplayCommandResult::StateChanged,
            Some(InReplayCommand::Resume) => ReplayCommandResult::StateChanged,
            Some(InReplayCommand::SetSpeed { .. }) => ReplayCommandResult::SpeedChanged,
            Some(InReplayCommand::StepForward) => if *old(is_paused) {
                ReplayCommandResult::StepForward
            } else {
                ReplayCommandResult::Nothing
            },
            Some(InReplayCommand::Restart) => ReplayCommandResult::Restart,
        }),
{
    let inner = match cmd {
        Some(c) => c,
        None => {
            return ReplayCommandResult::Nothing;
        },
    };
    match inner {
        InReplayCommand::Pause => {
            *is_paused = true;
            ReplayCommandResult::StateChanged
        },
        InReplayCommand::Resume => {
            *is_paused = false;
            ReplayCommandResult::StateChanged
        },
        InReplayCommand::SetSpeed { .. } => ReplayCommandResult::SpeedChanged,
        InReplayCommand::StepForward => {
            if *is_paused {
                ReplayCommandResult::StepForward
            } else {
                ReplayCommandResult::Nothing
            }
        },
        InReplayCommand::Restart => ReplayCommandResult::Restart,
    }
}

/// The largest of the first `n` ticks, and 0 when all are below 0.
pub open spec fn max_tick(ticks: Seq<i64>, n: int) -> int
    decreases n,
{
    if n <= 0 {
        0
    } else {
        let m = max_tick(ticks, n - 1);
        if ticks[n - 1] > m {
            ticks[n - 1] as int
        } else {
            m
        }
    }
}

/// The largest of the first `n` ticks bounds each of them, and is one of
/// them unless all are at most 0.
pub proof fn lemma_max_tick_bounds(ticks: Seq<i64>, n: int)
    requires
        0 <= n <= ticks.len(),
    ensures
        max_tick(ticks, n) >= 0,
        forall|i: int| 0 <= i < n ==> ticks[i] <= max_tick(ticks, n),
        max_tick(ticks, n) > 0 ==> exists|i: int| 0 <= i < n && ticks[i] == max_tick(ticks, n),
    decreases n,
{
    if n > 0 {
        lemma_max_tick_bounds(ticks, n - 1);
        if ticks[n - 1] > max_tick(ticks, n - 1) {
            assert(ticks[n - 1] == max_tick(ticks, n));
        }
    }
}

/// Number of ticks a replay spans: one past the last recorded tick, or 0
/// when no action has a positive tick. Every recorded tick with a
/// positive number falls before the total.
pub fn estimate_total_ticks(ticks: &[i64]) -> (r: u64)
    ensures
        r == (if max_tick(ticks@, ticks@.len() as int) <= 0 {
            0
        } else {
            max_tick(ticks@, ticks@.len() as int) + 1
        }),
        forall|i: int| 0 <= i < ticks@.len() && ticks@[i] > 0 ==> ticks@[i] < r,
{
    proof {
        lemma_max_tick_bounds(ticks@, ticks@.len() as int);
    }
    let mut max: i64 = 0;
    let mut i: usize = 0;
    while i < ticks.len()
        invariant
            0 <= i <= ticks@.len(),
            max == max_tick(ticks@, i as int),
            max >= 0,
        decreases ticks@.len() - i,
    {
        if ticks[i] > max {
            max = ticks[i];
        }
        i = i + 1;
    }
    if max <= 0 {
        0
    } else {
        max as u64 + 1
    }
}

} // verus!
