//! The two-valued color tag for the players.

use vstd::prelude::*;

verus! {

/// One of the two players.  Red moves are recorded in the red bitboard,
/// yellow moves in the yellow one.
#[derive(Debug, Clone, Copy, PartialEq, Eq, Hash)]
pub enum Player {
    Red,
    Yellow,
}

impl Player {
    /// The player owning the other bitboard.
    pub fn other(self) -> (p: Player)
        ensures
            p == self.spec_other(),
    {
        match self {
            Player::Red => Player::Yellow,
            Player::Yellow => Player::Red,
        }
    }

    /// The opponent of `self`.
    pub open spec fn spec_other(self) -> Player {
        match self {
            Player::Red => Player::Yellow,
            Player::Yellow => Player::Red,
        }
    }
}

impl core::str::FromStr for Player {
    type Err = ();

    /// Parses the one-letter tags `"r"` and `"y"`.
    fn from_str(s: &str) -> Result<Self, ()> {
        let bytes = s.as_bytes();
        if bytes.len() == 1 {
            if bytes[0] == 114u8 {
                Ok(Player::Red)
            } else if bytes[0] == 121u8 {
                Ok(Player::Yellow)
            } else {
                Err(())
            }
        } else {
            Err(())
        }
    }
}

} // verus!
