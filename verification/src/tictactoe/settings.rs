use vstd::prelude::*;
use vstd::string::StringExecFns;
use super::types::FirstPlayerMode;
use crate::proto::tictactoe as proto;
use crate::text::{decimal, decimal_string};

verus! {

/// The settings a tic-tac-toe session is created with.
#[derive(Debug, Clone, Copy)]
pub struct TicTacToeSessionSettings {
    pub field_width: usize,
    pub field_height: usize,
    pub win_count: usize,
    pub first_player_mode: FirstPlayerMode,
}

impl TicTacToeSessionSettings {
    /// The session settings a lobby's settings describe; anything but
    /// `Host` picks the first player at random.
    pub fn from(settings: &proto::TicTacToeLobbySettings) -> (r: Self)
        ensures
            r.field_width == settings.field_width,
            r.field_height == settings.field_height,
            r.win_count == settings.win_count,
            r.first_player_mode == (if settings.first_player == proto::FirstPlayerMode::Host {
                FirstPlayerMode::Host
            } else {
                FirstPlayerMode::Random
            }),
    {
        let first_player_mode = match settings.first_player {
            proto::FirstPlayerMode::Host => FirstPlayerMode::Host,
            _ => FirstPlayerMode::Random,
        };
        Self {
            field_width: settings.field_width as usize,
            field_height: settings.field_height as usize,
            win_count: settings.win_count as usize,
            first_player_mode,
        }
    }
}

pub open spec fn min_u32(a: u32, b: u32) -> u32 {
    if a <= b {
        a
    } else {
        b
    }
}

impl proto::TicTacToeLobbySettings {
    /// Accepted when the lobby is for two players, both sides are 3 to 20
    /// cells, and the line length is at least 3 and fits the shorter side;
    /// the first failed check, in that order, gives the error.
    pub fn validate(&self, max_players: u32) -> (r: Result<(), String>)
        ensures
            r is Ok <==> (max_players == 2 && 3 <= self.field_width <= 20 && 3 <= self.field_height <= 20
                && 3 <= self.win_count <= min_u32(self.field_width, self.field_height)),
            max_players != 2 ==> (r matches Err(e) && e@ == "TicTacToe requires exactly 2 players"@),
            max_players == 2 && !(3 <= self.field_width <= 20) ==> (r matches Err(e) && e@
                == "Field width must be between 3 and 20"@),
            max_players == 2 && 3 <= self.field_width <= 20 && !(3 <= self.field_height <= 20) ==> (
            r matches Err(e) && e@ == "Field height must be between 3 and 20"@),
            max_players == 2 && 3 <= self.field_width <= 20 && 3 <= self.field_height <= 20
                && self.win_count < 3 ==> (r matches Err(e) && e@ == "Win count must be at least 3"@),
            max_players == 2 && 3 <= self.field_width <= 20 && 3 <= self.field_height <= 20 && 3
                <= self.win_count && self.win_count > min_u32(self.field_width, self.field_height) ==> (
            r matches Err(e) && e@ == "Win count ("@ + decimal(self.win_count as nat)
                + ") cannot exceed minimum dimension ("@ + decimal(
                min_u32(self.field_width, self.field_height) as nat,
            ) + ")"@),
    {
        if max_players != 2 {
            return Err("TicTacToe requires exactly 2 players".to_owned());
        }
        if self.field_width < 3 || self.field_width > 20 {
            return Err("Field width must be between 3 and 20".to_owned());
        }
        if self.field_height < 3 || self.field_height > 20 {
            return Err("Field height must be between 3 and 20".to_owned());
        }
        if self.win_count < 3 {
            return Err("Win count must be at least 3".to_owned());
        }
        let min_dimension = if self.field_width <= self.field_height {
            self.field_width
        } else {
            self.field_height
        };
        if self.win_count > min_dimension {
            let mut message = String::from_str("Win count (");
            message.append(decimal_string(self.win_count as u64).as_str());
            message.append(") cannot exceed minimum dimension (");
            message.append(decimal_string(min_dimension as u64).as_str());
            message.append(")");
            return Err(message);
        }
        Ok(())
    }

    /// A game needs exactly two players.
    pub fn validate_player_count(&self, player_count: usize) -> (r: Result<(), String>)
        ensures
            r is Ok <==> player_count == 2,
            player_count != 2 ==> (r matches Err(e) && e@ == "TicTacToe requires exactly 2 players, got "@
                + decimal(player_count as nat)),
    {
        if player_count != 2 {
            let mut message = String::from_str("TicTacToe requires exactly 2 players, got ");
            message.append(decimal_string(player_count as u64).as_str());
            return Err(message);
        }
        Ok(())
    }
}

} // verus!
