//! Replaying recorded actions on the game states.

use vstd::prelude::*;
use crate::identifiers::PlayerId;
use crate::proto::replay::{ActionContent, GameCommand, PlayerAction};
use crate::proto::snake::Direction as WireDirection;
use crate::snake::game::{DeathReason, Direction, GameModel, GameState as SnakeGameState, kill_model, turn_model};
use crate::tictactoe::game_state::{TicTacToeGameState, placed};

verus! {

/// The id of the player at `index` among the replay's players.
pub open spec fn player_at(players: Seq<PlayerId>, index: i32) -> Option<Seq<char>> {
    if 0 <= index < players.len() {
        Some(players[index as int]@)
    } else {
        None
    }
}

/// The heading a wire direction names; none for an unspecified one.
pub open spec fn snake_direction_of(d: WireDirection) -> Option<Direction> {
    match d {
        WireDirection::Up => Some(Direction::Up),
        WireDirection::Down => Some(Direction::Down),
        WireDirection::Left => Some(Direction::Left),
        WireDirection::Right => Some(Direction::Right),
        WireDirection::Unspecified => None,
    }
}

/// The snake game after a recorded action: a turn of a known player's
/// snake, or that player's disconnection, which kills the snake; anything
/// else changes nothing.
pub open spec fn snake_action_effect(
    gm: GameModel,
    ids: Seq<Seq<char>>,
    action: PlayerAction,
    players: Seq<PlayerId>,
) -> GameModel {
    match player_at(players, action.player_index) {
        Some(id) => match action.content {
            Some(ActionContent::Command(Some(GameCommand::SnakeTurn { direction }))) => match snake_direction_of(
                direction,
            ) {
                Some(d) => turn_model(gm, ids, id, d),
                None => gm,
            },
            Some(ActionContent::Disconnected) => kill_model(gm, ids, id, DeathReason::PlayerDisconnected),
            _ => gm,
        },
        None => gm,
    }
}

/// The mark placement a recorded action asks for: the player and the cell.
pub open spec fn placement_of(action: PlayerAction, players: Seq<PlayerId>) -> Option<(Seq<char>, u32, u32)> {
    match player_at(players, action.player_index) {
        Some(id) => match action.content {
            Some(ActionContent::Command(Some(GameCommand::TicTacToePlace { x, y }))) => Some((id, x, y)),
            _ => None,
        },
        None => None,
    }
}

/// The pair a recorded action removes in a numbers match game.
pub open spec fn remove_pair_of(action: PlayerAction) -> Option<(u32, u32)> {
    match action.content {
        Some(
            ActionContent::Command(Some(GameCommand::NumbersMatchRemovePair { first_index, second_index })),
        ) => Some((first_index, second_index)),
        _ => None,
    }
}

/// The heading a wire direction names; none for an unspecified one.
pub fn convert_direction(d: WireDirection) -> (r: Option<Direction>)
    ensures
        r == snake_direction_of(d),
{
    match d {
        WireDirection::Up => Some(Direction::Up),
        WireDirection::Down => Some(Direction::Down),
        WireDirection::Left => Some(Direction::Left),
        WireDirection::Right => Some(Direction::Right),
        WireDirection::Unspecified => None,
    }
}

fn player_for(players: &[PlayerId], index: i32) -> (r: Option<&PlayerId>)
    ensures
        match r {
            Some(p) => player_at(players@, index) == Some(p@),
            None => player_at(players@, index) is None,
        },
{
    if index >= 0 && (index as usize) < players.len() {
        Some(&players[index as usize])
    } else {
        None
    }
}

/// The wire heading of a direction.
pub open spec fn wire_direction(d: Direction) -> WireDirection {
    match d {
        Direction::Up => WireDirection::Up,
        Direction::Down => WireDirection::Down,
        Direction::Left => WireDirection::Left,
        Direction::Right => WireDirection::Right,
    }
}

/// The command recorded when a player turns their snake.
pub fn create_turn_command(direction: Direction) -> (r: GameCommand)
    ensures
        r == (GameCommand::SnakeTurn { direction: wire_direction(direction) }),
{
    let wire = match direction {
        Direction::Up => WireDirection::Up,
        Direction::Down => WireDirection::Down,
        Direction::Left => WireDirection::Left,
        Direction::Right => WireDirection::Right,
    };
    GameCommand::SnakeTurn { direction: wire }
}

/// The command recorded when a player puts a mark at `(x, y)`.
pub fn create_place_command(x: u32, y: u32) -> (r: GameCommand)
    ensures
        r == (GameCommand::TicTacToePlace { x, y }),
{
    GameCommand::TicTacToePlace { x, y }
}

/// A recorded turn replays as the turn itself: the action of the player at
/// `index` holding the command recorded for a turn to `d` has the effect
/// of that player turning to `d`.
pub proof fn lemma_recorded_turn_replays(
    gm: GameModel,
    ids: Seq<Seq<char>>,
    players: Seq<PlayerId>,
    tick: i64,
    index: i32,
    d: Direction,
)
    requires
        0 <= index < players.len(),
    ensures
        snake_action_effect(
            gm,
            ids,
            PlayerAction {
                tick,
                player_index: index,
                content: Some(ActionContent::Command(Some(GameCommand::SnakeTurn { direction: wire_direction(d) }))),
            },
            players,
        ) == turn_model(gm, ids, players[index as int]@, d),
{
}

/// A recorded placement replays as the placement itself: the action of
/// the player at `index` holding the command recorded for `(x, y)` asks
/// that player to put a mark at `(x, y)`.
pub proof fn lemma_recorded_placement_replays(players: Seq<PlayerId>, tick: i64, index: i32, x: u32, y: u32)
    requires
        0 <= index < players.len(),
    ensures
        placement_of(
            PlayerAction {
                tick,
                player_index: index,
                content: Some(ActionContent::Command(Some(GameCommand::TicTacToePlace { x, y }))),
            },
            players,
        ) == Some((players[index as int]@, x, y)),
{
}

/// Replays one recorded action on a snake game: a turn by a known player
/// is queued for that player's snake, a disconnection kills it, and any
/// other action is ignored.
pub fn apply_snake_action(game_state: &mut SnakeGameState, action: &PlayerAction, players: &[PlayerId])
    requires
        old(game_state).wf(),
    ensures
        final(game_state).wf(),
        final(game_state).ids() == old(game_state).ids(),
        final(game_state).food_set == old(game_state).food_set,
        final(game_state).field_size == old(game_state).field_size,
        final(game_state).wall_collision_mode == old(game_state).wall_collision_mode,
        final(game_state).max_food_count == old(game_state).max_food_count,
        final(game_state).model() == snake_action_effect(
            old(game_state).model(),
            old(game_state).ids(),
            *action,
            players@,
        ),
{
    let player_id = match player_for(players, action.player_index) {
        Some(p) => p,
        None => {
            return;
        },
    };
    match action.content {
        Some(ActionContent::Command(Some(GameCommand::SnakeTurn { direction }))) => {
            let d = match convert_direction(direction) {
                Some(d) => d,
                None => {
                    return;
                },
            };
            game_state.set_snake_direction(player_id, d);
        },
        Some(ActionContent::Disconnected) => {
            game_state.kill_snake(player_id, DeathReason::PlayerDisconnected);
        },
        _ => {},
    }
}

/// Replays one recorded action on a tic-tac-toe game: a placement by a
/// known player is made when the rules allow it; refused placements and
/// all other actions leave the game as it was.
pub fn apply_tictactoe_action(game_state: &mut TicTacToeGameState, action: &PlayerAction, players: &[PlayerId])
    requires
        old(game_state).wf(),
    ensures
        final(game_state).wf(),
        match placement_of(*action, players@) {
            Some((p, x, y)) => if old(game_state).can_place(p, x as int, y as int) {
                placed(*old(game_state), *final(game_state), x as usize, y as usize)
            } else {
                *final(game_state) == *old(game_state)
            },
            None => *final(game_state) == *old(game_state),
        },
{
    let player_id = match player_for(players, action.player_index) {
        Some(p) => p,
        None => {
            return;
        },
    };
    if let Some(ActionContent::Command(Some(GameCommand::TicTacToePlace { x, y }))) = action.content {
        let _ = game_state.place_mark(player_id, x as usize, y as usize);
    }
}

/// The two cell indices of a recorded pair removal, if the action is one.
pub fn extract_remove_pair_indices(action: &PlayerAction) -> (r: Option<(u32, u32)>)
    ensures
        r == remove_pair_of(*action),
{
    match action.content {
        Some(
            ActionContent::Command(Some(GameCommand::NumbersMatchRemovePair { first_index, second_index })),
        ) => Some((first_index, second_index)),
        _ => None,
    }
}

} // verus!
