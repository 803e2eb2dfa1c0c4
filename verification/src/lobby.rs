//! Who takes part in a lobby.

use vstd::prelude::*;
use crate::identifiers::{PlayerId, BotId};
use crate::snake::bot_controller::SnakeBotType;
use crate::proto::tictactoe::TicTacToeBotType;
use crate::proto::game_service;
use crate::proto::replay::Game;
use crate::stack_attack::settings::{MAX_PLAYERS as STACK_ATTACK_MAX_PLAYERS, MIN_PLAYERS as STACK_ATTACK_MIN_PLAYERS};
use crate::text::{decimal, decimal_string};
use vstd::string::StringExecFns;

verus! {

/// The kind of a bot, per game.
#[derive(Debug, Clone, Copy, PartialEq, Eq, Structural)]
pub enum BotType {
    Snake(SnakeBotType),
    TicTacToe(TicTacToeBotType),
}

/// A lobby member: a human player or a bot.
#[derive(Debug)]
pub enum PlayerIdentity {
    Player(PlayerId),
    Bot { id: BotId, bot_type: BotType },
}

/// The text identifying a member.
pub open spec fn identity_text(p: PlayerIdentity) -> Seq<char> {
    match p {
        PlayerIdentity::Player(id) => id@,
        PlayerIdentity::Bot { id, .. } => id@,
    }
}

impl PlayerIdentity {
    /// The member's identifier as text.
    pub fn client_id(&self) -> (r: String)
        ensures
            r@ == identity_text(*self),
    {
        match self {
            PlayerIdentity::Player(id) => id.to_string(),
            PlayerIdentity::Bot { id, .. } => id.to_string(),
        }
    }

    /// The member on the wire: its identifier and whether it is a bot.
    pub fn to_proto(&self) -> (r: game_service::PlayerIdentity)
        ensures
            r.player_id@ == identity_text(*self),
            r.is_bot == (*self is Bot),
    {
        game_service::PlayerIdentity {
            player_id: self.client_id(),
            is_bot: match self {
                PlayerIdentity::Bot { .. } => true,
                PlayerIdentity::Player(_) => false,
            },
        }
    }
}

/// `prefix`, the decimal notation of `n`, then `suffix`.
fn message_around_number(prefix: &str, n: usize, suffix: &str) -> (r: String)
    ensures
        r@ == prefix@ + decimal(n as nat) + suffix@,
{
    let mut message = String::from_str(prefix);
    message.append(decimal_string(n as u64).as_str());
    message.append(suffix);
    message
}

/// The players a game needs before its lobby may start: exactly two for
/// tic-tac-toe, at least one for snake, exactly one for numbers match and
/// for 2048, and from the minimum to the maximum for stack attack.
pub open spec fn start_count_ok(game: Game, total: int) -> bool {
    match game {
        Game::Tictactoe => total == 2,
        Game::Snake => total != 0,
        Game::NumbersMatch => total == 1,
        Game::StackAttack => STACK_ATTACK_MIN_PLAYERS <= total <= STACK_ATTACK_MAX_PLAYERS,
        Game::Puzzle2048 => total == 1,
        Game::Unspecified => true,
    }
}

/// How many participants each game starts with: a snake lobby starts with
/// any positive number, so a solo game too, and the more join the more it
/// still may; tic-tac-toe needs exactly two; numbers match and 2048 exactly
/// one; stack attack from one to four.
pub proof fn lemma_start_counts(total: int)
    requires
        total >= 0,
    ensures
        start_count_ok(Game::Snake, total) <==> total >= 1,
        start_count_ok(Game::Snake, total) ==> start_count_ok(Game::Snake, total + 1),
        start_count_ok(Game::Tictactoe, total) <==> total == 2,
        start_count_ok(Game::NumbersMatch, total) <==> total == 1,
        start_count_ok(Game::Puzzle2048, total) <==> total == 1,
        start_count_ok(Game::StackAttack, total) <==> 1 <= total <= 4,
{
}

/// Checks the number of participants (players and bots) a lobby of
/// `game` holds when its host starts the game, with the message the
/// lobby answers for each refusal.
pub fn validate_start_player_count(game: Game, total_players: usize) -> (r: Result<(), String>)
    requires
        game != Game::Unspecified,
    ensures
        r is Ok <==> start_count_ok(game, total_players as int),
        game == Game::Tictactoe && total_players != 2 ==> (r matches Err(e) && e@ == "TicTacToe requires exactly 2 players, but "@
            + decimal(total_players as nat) + " are in the lobby"@),
        game == Game::Snake && total_players == 0 ==> (r matches Err(e) && e@ == "Cannot start game with no players"@),
        game == Game::NumbersMatch && total_players != 1 ==> (r matches Err(e) && e@
            == "NumbersMatch requires exactly 1 player, but "@ + decimal(total_players as nat) + " are in the lobby"@),
        game == Game::StackAttack && total_players < STACK_ATTACK_MIN_PLAYERS ==> (r matches Err(e) && e@
            == "Stack Attack requires at least 1 player(s)"@),
        game == Game::StackAttack && total_players > STACK_ATTACK_MAX_PLAYERS ==> (r matches Err(e) && e@
            == "Stack Attack allows at most 4 players, but "@ + decimal(total_players as nat) + " are in the lobby"@),
        game == Game::Puzzle2048 && total_players != 1 ==> (r matches Err(e) && e@
            == "Puzzle 2048 requires exactly 1 player, but "@ + decimal(total_players as nat) + " are in the lobby"@),
{
    match game {
        Game::Tictactoe => {
            if total_players != 2 {
                return Err(
                    message_around_number("TicTacToe requires exactly 2 players, but ", total_players, " are in the lobby"),
                );
            }
        },
        Game::Snake => {
            if total_players == 0 {
                return Err("Cannot start game with no players".to_owned());
            }
        },
        Game::NumbersMatch => {
            if total_players != 1 {
                return Err(
                    message_around_number("NumbersMatch requires exactly 1 player, but ", total_players, " are in the lobby"),
                );
            }
        },
        Game::StackAttack => {
            if total_players < STACK_ATTACK_MIN_PLAYERS {
                return Err("Stack Attack requires at least 1 player(s)".to_owned());
            }
            if total_players > STACK_ATTACK_MAX_PLAYERS {
                return Err(
                    message_around_number("Stack Attack allows at most 4 players, but ", total_players, " are in the lobby"),
                );
            }
        },
        Game::Puzzle2048 => {
            if total_players != 1 {
                return Err(
                    message_around_number("Puzzle 2048 requires exactly 1 player, but ", total_players, " are in the lobby"),
                );
            }
        },
        Game::Unspecified => {},
    }
    Ok(())
}

} // verus!
