use vstd::prelude::*;

verus! {

/// A participant on the wire.
#[derive(Debug, Clone, PartialEq, Eq)]
pub struct PlayerIdentity {
    pub player_id: String,
    pub is_bot: bool,
}

} // verus!
