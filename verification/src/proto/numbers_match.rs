use vstd::prelude::*;

verus! {

/// Hint availability on the wire.
#[derive(Debug, Clone, Copy, PartialEq, Eq, Structural)]
pub enum HintMode {
    Unspecified,
    Limited,
    Unlimited,
    Disabled,
}

/// Numbers-match lobby settings on the wire.
#[derive(Debug, Clone, Copy, PartialEq, Eq)]
pub struct NumbersMatchLobbySettings {
    pub hint_mode: HintMode,
}

} // verus!
