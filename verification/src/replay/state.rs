//! The game states a replay shows, as wire records.

use vstd::prelude::*;
use crate::identifiers::PlayerId;
use crate::proto::game_service::PlayerIdentity;
use crate::proto::snake as wire;
use crate::proto::tictactoe::TicTacToeGameState as WireTicTacToeState;
use crate::snake::bot_controller::DeadSnakeBehavior;
use crate::snake::game::{GameState as SnakeGameState, Point, WallCollisionMode};
use crate::tictactoe::game_state::{TicTacToeGameState, board_marks};
use crate::tictactoe::types::status_code;

verus! {

/// Whether the first participant listed under `id`, from index `i` on, is
/// a bot; false when none is listed.
pub open spec fn listed_as_bot(players: Seq<PlayerIdentity>, id: Seq<char>, i: int) -> bool
    decreases players.len() - i,
{
    if i < 0 || i >= players.len() {
        false
    } else if players[i].player_id@ == id {
        players[i].is_bot
    } else {
        listed_as_bot(players, id, i + 1)
    }
}

/// Whether the participant listed under `id` is a bot.
pub fn is_listed_bot(players: &[PlayerIdentity], id: &PlayerId) -> (r: bool)
    ensures
        r == listed_as_bot(players@, id@, 0),
{
    let text = id.to_string();
    let mut i: usize = 0;
    while i < players.len()
        invariant
            0 <= i <= players@.len(),
            text@ == id@,
            listed_as_bot(players@, id@, 0) == listed_as_bot(players@, id@, i as int),
        decreases players@.len() - i,
    {
        if players[i].player_id == text {
            return players[i].is_bot;
        }
        i = i + 1;
    }
    false
}

/// A cell on the wire.
pub open spec fn wire_position(p: Point) -> wire::Position {
    wire::Position { x: p.x as i32, y: p.y as i32 }
}

pub open spec fn wire_mode(m: WallCollisionMode) -> wire::WallCollisionMode {
    match m {
        WallCollisionMode::Death => wire::WallCollisionMode::Death,
        WallCollisionMode::WrapAround => wire::WallCollisionMode::WrapAround,
    }
}

pub open spec fn wire_behavior(b: DeadSnakeBehavior) -> wire::DeadSnakeBehavior {
    match b {
        DeadSnakeBehavior::Disappear => wire::DeadSnakeBehavior::Disappear,
        DeadSnakeBehavior::StayOnField => wire::DeadSnakeBehavior::StayOnField,
    }
}

fn to_wire_position(p: Point) -> (r: wire::Position)
    ensures
        r == wire_position(p),
{
    wire::Position { x: p.x as i32, y: p.y as i32 }
}

/// A snake game at `tick` on the wire: every snake in moving order with
/// its player (flagged as a bot as `players` lists it), its body, whether
/// it lives and its score; the food; the field; the pace and the rules.
pub fn build_snake_proto_state(
    state: &SnakeGameState,
    players: &[PlayerIdentity],
    tick: u64,
    tick_interval_ms: u32,
    dead_snake_behavior: DeadSnakeBehavior,
) -> (r: wire::SnakeGameState)
    ensures
        r.tick == tick,
        r.snakes@.len() == state.snakes@.len(),
        forall|i: int|
            0 <= i < state.snakes@.len() ==> {
                let e = state.snakes@[i];
                let s = #[trigger] r.snakes@[i];
                &&& s.identity matches Some(id) && id.player_id@ == e.player_id@ && id.is_bot
                    == listed_as_bot(players@, e.player_id@, 0)
                &&& s.segments@ == e.snake.body@.map_values(|p: Point| wire_position(p))
                &&& s.alive == (e.snake.death_reason is None)
                &&& s.score == e.snake.score
            },
        r.food@ == state.food_set.elems().map_values(|p: Point| wire_position(p)),
        r.field_width == state.field_size.width as u32,
        r.field_height == state.field_size.height as u32,
        r.tick_interval_ms == tick_interval_ms,
        r.wall_collision_mode == wire_mode(state.wall_collision_mode),
        r.dead_snake_behavior == wire_behavior(dead_snake_behavior),
{
    let mut snakes: Vec<wire::Snake> = Vec::new();
    let mut i: usize = 0;
    while i < state.snakes.len()
        invariant
            0 <= i <= state.snakes@.len(),
            snakes@.len() == i,
            forall|k: int|
                0 <= k < i ==> {
                    let e = state.snakes@[k];
                    let s = #[trigger] snakes@[k];
                    &&& s.identity matches Some(id) && id.player_id@ == e.player_id@ && id.is_bot
                        == listed_as_bot(players@, e.player_id@, 0)
                    &&& s.segments@ == e.snake.body@.map_values(|p: Point| wire_position(p))
                    &&& s.alive == (e.snake.death_reason is None)
                    &&& s.score == e.snake.score
                },
        decreases state.snakes@.len() - i,
    {
        let entry = &state.snakes[i];
        let mut segments: Vec<wire::Position> = Vec::new();
        let mut j: usize = 0;
        while j < entry.snake.body.len()
            invariant
                entry == state.snakes@[i as int],
                0 <= j <= entry.snake.body@.len(),
                segments@ == entry.snake.body@.take(j as int).map_values(|p: Point| wire_position(p)),
            decreases entry.snake.body@.len() - j,
        {
            let p = entry.snake.body[j];
            segments.push(to_wire_position(p));
            assert(entry.snake.body@.take(j + 1) =~= entry.snake.body@.take(j as int).push(p));
            assert(segments@ =~= entry.snake.body@.take(j + 1).map_values(|p: Point| wire_position(p)));
            j = j + 1;
        }
        assert(entry.snake.body@.take(j as int) =~= entry.snake.body@);
        let is_bot = is_listed_bot(players, &entry.player_id);
        snakes.push(
            wire::Snake {
                identity: Some(PlayerIdentity { player_id: entry.player_id.to_string(), is_bot }),
                segments,
                alive: entry.snake.is_alive(),
                score: entry.snake.score,
            },
        );
        i = i + 1;
    }
    let mut food: Vec<wire::Position> = Vec::new();
    let mut k: usize = 0;
    while k < state.food_set.len()
        invariant
            0 <= k <= state.food_set.spec_len(),
            food@ == state.food_set.elems().take(k as int).map_values(|p: Point| wire_position(p)),
        decreases state.food_set.spec_len() - k,
    {
        proof {
            state.food_set.lemma_elems();
        }
        let p = state.food_set.get(k);
        food.push(to_wire_position(p));
        assert(state.food_set.elems().take(k + 1) =~= state.food_set.elems().take(k as int).push(p));
        assert(food@ =~= state.food_set.elems().take(k + 1).map_values(|p: Point| wire_position(p)));
        k = k + 1;
    }
    proof {
        state.food_set.lemma_elems();
    }
    assert(state.food_set.elems().take(k as int) =~= state.food_set.elems());
    let wall_collision_mode = match state.wall_collision_mode {
        WallCollisionMode::Death => wire::WallCollisionMode::Death,
        WallCollisionMode::WrapAround => wire::WallCollisionMode::WrapAround,
    };
    let dead_snake_behavior = match dead_snake_behavior {
        DeadSnakeBehavior::Disappear => wire::DeadSnakeBehavior::Disappear,
        DeadSnakeBehavior::StayOnField => wire::DeadSnakeBehavior::StayOnField,
    };
    wire::SnakeGameState {
        tick,
        snakes,
        food,
        field_width: state.field_size.width as u32,
        field_height: state.field_size.height as u32,
        tick_interval_ms,
        wall_collision_mode,
        dead_snake_behavior,
    }
}

/// A tic-tac-toe game on the wire, each player flagged as a bot as
/// `players` lists it.
pub fn build_tictactoe_state(game_state: &TicTacToeGameState, players: &[PlayerIdentity]) -> (r: WireTicTacToeState)
    ensures
        r.board@ == board_marks(game_state.board@, game_state.board@.len() as int),
        r.field_width == game_state.width as u32,
        r.field_height == game_state.height as u32,
        r.win_count == game_state.win_count as u32,
        r.status == status_code(game_state.status),
        r.player_x matches Some(p) && p.player_id@ == game_state.player_x@ && p.is_bot == listed_as_bot(
            players@,
            game_state.player_x@,
            0,
        ),
        r.player_o matches Some(p) && p.player_id@ == game_state.player_o@ && p.is_bot == listed_as_bot(
            players@,
            game_state.player_o@,
            0,
        ),
        r.current_player matches Some(p) && p.player_id@ == game_state.current_player@ && p.is_bot
            == listed_as_bot(players@, game_state.current_player@, 0),
        r.last_move == match game_state.last_move {
            Some((x, y)) => Some(crate::proto::tictactoe::Position { x: x as u32, y: y as u32 }),
            None => None,
        },
{
    let player_x_is_bot = is_listed_bot(players, &game_state.player_x);
    let player_o_is_bot = is_listed_bot(players, &game_state.player_o);
    let current_player_is_bot = is_listed_bot(players, &game_state.current_player);
    game_state.to_proto_state(player_x_is_bot, player_o_is_bot, current_player_is_bot)
}

} // verus!
