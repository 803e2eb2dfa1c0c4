//! Settings checks of numbers match.

use vstd::prelude::*;
use crate::proto::numbers_match::{HintMode, NumbersMatchLobbySettings};

verus! {

impl NumbersMatchLobbySettings {
    /// The hint mode must be specified.
    pub fn validate(&self, _max_players: u32) -> (r: Result<(), String>)
        ensures
            r is Ok <==> self.hint_mode != HintMode::Unspecified,
            r matches Err(e) ==> e@ == "Hint mode must be specified"@,
    {
        if self.hint_mode == HintMode::Unspecified {
            return Err("Hint mode must be specified".to_owned());
        }
        Ok(())
    }

    /// Numbers match is played alone.
    pub fn validate_player_count(&self, player_count: usize) -> (r: Result<(), String>)
        ensures
            r is Ok <==> player_count == 1,
            r matches Err(e) ==> e@ == "NumbersMatch requires exactly 1 player"@,
    {
        if player_count != 1 {
            return Err("NumbersMatch requires exactly 1 player".to_owned());
        }
        Ok(())
    }
}

} // verus!
