use vstd::prelude::*;

verus! {

/// 2048 lobby settings on the wire.
#[derive(Debug, Clone, Copy, PartialEq, Eq)]
pub struct Puzzle2048LobbySettings {
    pub field_width: u32,
    pub field_height: u32,
    pub target_value: u32,
}

} // verus!
