//! Settings checks of the 2048 puzzle.

use vstd::prelude::*;
use vstd::string::StringExecFns;
use crate::proto::puzzle2048::Puzzle2048LobbySettings;
use crate::text::{decimal, decimal_string};

verus! {

/// `n` is 2 raised to some power.
pub open spec fn power_of_two(n: nat) -> bool
    decreases n,
{
    if n == 1 {
        true
    } else if n == 0 || n % 2 == 1 {
        false
    } else {
        power_of_two(n / 2)
    }
}

fn is_power_of_two(n: u32) -> (r: bool)
    ensures
        r == power_of_two(n as nat),
{
    let mut m = n;
    while m > 1 && m % 2 == 0
        invariant
            power_of_two(n as nat) == power_of_two(m as nat),
        decreases m,
    {
        m = m / 2;
    }
    m == 1
}

/// `prefix` followed by the decimal notation of `n`.
fn message_with_number(prefix: &str, n: u32) -> (r: String)
    ensures
        r@ == prefix@ + decimal(n as nat),
{
    let mut message = String::from_str(prefix);
    message.append(decimal_string(n as u64).as_str());
    message
}

impl Puzzle2048LobbySettings {
    /// Accepted when both sides are 2 to 10 cells and the target is a power
    /// of two of at least 8; the first failed check gives the error.
    pub fn validate(&self, _max_players: u32) -> (r: Result<(), String>)
        ensures
            r is Ok <==> (2 <= self.field_width <= 10 && 2 <= self.field_height <= 10 && self.target_value >= 8
                && power_of_two(self.target_value as nat)),
            !(2 <= self.field_width <= 10) ==> (r matches Err(e) && e@ == "Field width must be between 2 and 10, got "@
                + decimal(self.field_width as nat)),
            2 <= self.field_width <= 10 && !(2 <= self.field_height <= 10) ==> (r matches Err(e) && e@
                == "Field height must be between 2 and 10, got "@ + decimal(self.field_height as nat)),
            2 <= self.field_width <= 10 && 2 <= self.field_height <= 10 && self.target_value < 8 ==> (
            r matches Err(e) && e@ == "Target value must be at least 8, got "@ + decimal(self.target_value as nat)),
            2 <= self.field_width <= 10 && 2 <= self.field_height <= 10 && self.target_value >= 8
                && !power_of_two(self.target_value as nat) ==> (r matches Err(e) && e@
                == "Target value must be a power of 2, got "@ + decimal(self.target_value as nat)),
    {
        if self.field_width < 2 || self.field_width > 10 {
            return Err(message_with_number("Field width must be between 2 and 10, got ", self.field_width));
        }
        if self.field_height < 2 || self.field_height > 10 {
            return Err(message_with_number("Field height must be between 2 and 10, got ", self.field_height));
        }
        if self.target_value < 8 {
            return Err(message_with_number("Target value must be at least 8, got ", self.target_value));
        }
        if !is_power_of_two(self.target_value) {
            return Err(message_with_number("Target value must be a power of 2, got ", self.target_value));
        }
        Ok(())
    }
}

} // verus!
